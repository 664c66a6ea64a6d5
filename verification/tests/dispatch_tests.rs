//! End-to-end transactions through real interchange channels: selection,
//! unknown AIDs, command chaining, response chunking through GET RESPONSE,
//! interface pinning, and app lifecycle ordering.
use apdu_dispatch::aid::Aid;
use apdu_dispatch::app::App;
use apdu_dispatch::command::Command;
use apdu_dispatch::dispatch::ApduDispatch;
use apdu_dispatch::types::{Interface, Status};

struct TestApp {
    aid_bytes: Vec<u8>,
    reply: Vec<u8>,
    fail_with: Option<Status>,
    selects: u32,
    deselects: u32,
    calls: u32,
    seen_data: Vec<u8>,
}

impl TestApp {
    fn new(aid_bytes: &[u8], reply: &[u8]) -> TestApp {
        TestApp {
            aid_bytes: aid_bytes.to_vec(),
            reply: reply.to_vec(),
            fail_with: None,
            selects: 0,
            deselects: 0,
            calls: 0,
            seen_data: Vec::new(),
        }
    }
}

impl App for TestApp {
    // ghost-only item of the trait; never run
    fn aid_spec(&self) -> apdu_dispatch::aid::AidView {
        unreachable!()
    }

    fn aid(&self) -> Aid {
        Aid::try_new(&self.aid_bytes).unwrap()
    }

    fn select(
        &mut self,
        _interface: Interface,
        command: &Command,
        reply: &mut Vec<u8>,
    ) -> Result<(), Status> {
        self.selects += 1;
        self.seen_data = command.data.clone();
        match self.fail_with {
            Some(status) => Err(status),
            None => {
                reply.clear();
                reply.extend_from_slice(&self.reply);
                Ok(())
            }
        }
    }

    fn call(
        &mut self,
        _interface: Interface,
        command: &Command,
        reply: &mut Vec<u8>,
    ) -> Result<(), Status> {
        self.calls += 1;
        self.seen_data = command.data.clone();
        match self.fail_with {
            Some(status) => Err(status),
            None => {
                reply.clear();
                reply.extend_from_slice(&self.reply);
                Ok(())
            }
        }
    }

    fn deselect(&mut self) {
        self.deselects += 1;
    }
}

type Channel = interchange::Channel<Vec<u8>, Vec<u8>>;
type Requester<'p> = interchange::Requester<'p, Vec<u8>, Vec<u8>>;

fn roundtrip(
    dispatch: &mut ApduDispatch<'_>,
    requester: &mut Requester<'_>,
    apps: &mut Vec<TestApp>,
    request: &[u8],
) -> Vec<u8> {
    requester.request(request.to_vec()).unwrap();
    dispatch.poll(apps);
    requester.take_response().expect("a response must be emitted")
}

#[test]
fn select_with_short_reply() {
    let contact = Channel::new();
    let contactless = Channel::new();
    let (mut rq, rp) = contact.split().unwrap();
    let (_rq_ctl, rp_ctl) = contactless.split().unwrap();
    let mut dispatch = ApduDispatch::new(rp, rp_ctl);
    let mut apps = vec![TestApp::new(
        &[0xa0, 0x00, 0x00, 0x00, 0x62],
        &[0x01, 0x02, 0x03, 0x04],
    )];

    let out = roundtrip(
        &mut dispatch,
        &mut rq,
        &mut apps,
        &[0x00, 0xa4, 0x04, 0x00, 0x05, 0xa0, 0x00, 0x00, 0x00, 0x62],
    );
    assert_eq!(out, vec![0x01, 0x02, 0x03, 0x04, 0x90, 0x00]);
    assert_eq!(apps[0].selects, 1);
    assert_eq!(apps[0].deselects, 0);
}

#[test]
fn select_unknown_aid() {
    let contact = Channel::new();
    let contactless = Channel::new();
    let (_rq, rp) = contact.split().unwrap();
    let (mut rq_ctl, rp_ctl) = contactless.split().unwrap();
    let mut dispatch = ApduDispatch::new(rp, rp_ctl);
    let mut apps = vec![TestApp::new(&[0xa0, 0x00, 0x00, 0x00, 0x62], &[0x01])];

    let out = roundtrip(
        &mut dispatch,
        &mut rq_ctl,
        &mut apps,
        &[0x00, 0xa4, 0x04, 0x00, 0x05, 0xf0, 0x00, 0x00, 0x00, 0x01],
    );
    assert_eq!(out, vec![0x6a, 0x82]);
    assert_eq!(apps[0].selects, 0);
}

#[test]
fn ingress_chaining_then_single_reply() {
    let contact = Channel::new();
    let contactless = Channel::new();
    let (mut rq, rp) = contact.split().unwrap();
    let (_rq_ctl, rp_ctl) = contactless.split().unwrap();
    let mut dispatch = ApduDispatch::new(rp, rp_ctl);
    let aid = [0xa0, 0x00, 0x00, 0x00, 0x62];
    let mut apps = vec![TestApp::new(&aid, &[0x11, 0x22])];

    // bind the app first
    let out = roundtrip(
        &mut dispatch,
        &mut rq,
        &mut apps,
        &[0x00, 0xa4, 0x04, 0x00, 0x05, 0xa0, 0x00, 0x00, 0x00, 0x62],
    );
    assert_eq!(out, vec![0x11, 0x22, 0x90, 0x00]);

    // first block, chain bit set: acknowledged, app not yet invoked
    let out = roundtrip(
        &mut dispatch,
        &mut rq,
        &mut apps,
        &[0x10, 0x00, 0x00, 0x00, 0x04, 0xaa, 0xbb, 0xcc, 0xdd],
    );
    assert_eq!(out, vec![0x90, 0x00]);
    assert_eq!(apps[0].calls, 0);

    // terminal block: the app sees the concatenated data, and the reply is
    // forced through the chunked path
    let out = roundtrip(
        &mut dispatch,
        &mut rq,
        &mut apps,
        &[0x00, 0x00, 0x00, 0x00, 0x02, 0xee, 0xff],
    );
    assert_eq!(out, vec![0x11, 0x22, 0x90, 0x00]);
    assert_eq!(apps[0].calls, 1);
    assert_eq!(apps[0].seen_data, vec![0xaa, 0xbb, 0xcc, 0xdd, 0xee, 0xff]);
}

#[test]
fn egress_chaining_via_get_response() {
    let contact = Channel::new();
    let contactless = Channel::new();
    let (_rq, rp) = contact.split().unwrap();
    let (mut rq_ctl, rp_ctl) = contactless.split().unwrap();
    let mut dispatch = ApduDispatch::new(rp, rp_ctl);
    let aid = [0xa0, 0x00, 0x00, 0x00, 0x62];
    let long_reply = [
        0xa0, 0xa1, 0xa2, 0xa3, 0xa4, 0xa5, 0xa6, 0xa7, 0xa8, 0xa9, 0xaa, 0xab,
    ];
    let mut apps = vec![TestApp::new(&aid, &long_reply)];

    let out = roundtrip(
        &mut dispatch,
        &mut rq_ctl,
        &mut apps,
        &[0x00, 0xa4, 0x04, 0x00, 0x05, 0xa0, 0x00, 0x00, 0x00, 0x62, 0x20],
    );
    assert_eq!(out, long_reply.iter().copied().chain([0x90, 0x00]).collect::<Vec<u8>>());

    // Le = 5, 12-byte reply: first chunk, then the rest via GET RESPONSE
    let out = roundtrip(
        &mut dispatch,
        &mut rq_ctl,
        &mut apps,
        &[0x00, 0x10, 0x00, 0x00, 0x05],
    );
    assert_eq!(out, vec![0xa0, 0xa1, 0xa2, 0xa3, 0xa4, 0x61, 0x07]);

    let out = roundtrip(
        &mut dispatch,
        &mut rq_ctl,
        &mut apps,
        &[0x00, 0xc0, 0x00, 0x00, 0x07],
    );
    assert_eq!(out, vec![0xa5, 0xa6, 0xa7, 0xa8, 0xa9, 0xaa, 0xab, 0x90, 0x00]);
}

#[test]
fn cross_interface_interleave_rejected() {
    let contact = Channel::new();
    let contactless = Channel::new();
    let (mut rq, rp) = contact.split().unwrap();
    let (mut rq_ctl, rp_ctl) = contactless.split().unwrap();
    let mut dispatch = ApduDispatch::new(rp, rp_ctl);
    let aid = [0xa0, 0x00, 0x00, 0x00, 0x62];
    let mut apps = vec![TestApp::new(&aid, &[0x01, 0x02])];

    // the transaction begins (and stays pinned) on contactless
    let out = roundtrip(
        &mut dispatch,
        &mut rq_ctl,
        &mut apps,
        &[0x00, 0xa4, 0x04, 0x00, 0x05, 0xa0, 0x00, 0x00, 0x00, 0x62],
    );
    assert_eq!(out, vec![0x01, 0x02, 0x90, 0x00]);

    // a request on contact cannot advance it: 0x6400, without parsing
    let out = roundtrip(
        &mut dispatch,
        &mut rq,
        &mut apps,
        &[0x00, 0x10, 0x00, 0x00, 0x00],
    );
    assert_eq!(out, vec![0x64, 0x00]);
    assert_eq!(apps[0].calls, 0);

    // the contactless side is unaffected
    let out = roundtrip(
        &mut dispatch,
        &mut rq_ctl,
        &mut apps,
        &[0x00, 0x10, 0x00, 0x00, 0x00],
    );
    assert_eq!(out, vec![0x01, 0x02, 0x90, 0x00]);
    assert_eq!(apps[0].calls, 1);
}

#[test]
fn spurious_get_response() {
    let contact = Channel::new();
    let contactless = Channel::new();
    let (mut rq, rp) = contact.split().unwrap();
    let (_rq_ctl, rp_ctl) = contactless.split().unwrap();
    let mut dispatch = ApduDispatch::new(rp, rp_ctl);
    let aid = [0xa0, 0x00, 0x00, 0x00, 0x62];
    let mut apps = vec![TestApp::new(&aid, &[0x01, 0x02, 0x03, 0x04])];

    let out = roundtrip(
        &mut dispatch,
        &mut rq,
        &mut apps,
        &[0x00, 0xa4, 0x04, 0x00, 0x05, 0xa0, 0x00, 0x00, 0x00, 0x62],
    );
    assert_eq!(out, vec![0x01, 0x02, 0x03, 0x04, 0x90, 0x00]);

    // nothing is pending: a GET RESPONSE now is an error
    let out = roundtrip(
        &mut dispatch,
        &mut rq,
        &mut apps,
        &[0x00, 0xc0, 0x00, 0x00, 0x00],
    );
    assert_eq!(out, vec![0x6f, 0x00]);
}

#[test]
fn switching_selects_deselects_old_app_once() {
    let contact = Channel::new();
    let contactless = Channel::new();
    let (mut rq, rp) = contact.split().unwrap();
    let (_rq_ctl, rp_ctl) = contactless.split().unwrap();
    let mut dispatch = ApduDispatch::new(rp, rp_ctl);
    let mut apps = vec![
        TestApp::new(&[0xa0, 0x00, 0x00, 0x00, 0x62], &[0x01]),
        TestApp::new(&[0xb0, 0x00, 0x00, 0x00, 0x11], &[0x02]),
    ];

    let out = roundtrip(
        &mut dispatch,
        &mut rq,
        &mut apps,
        &[0x00, 0xa4, 0x04, 0x00, 0x05, 0xa0, 0x00, 0x00, 0x00, 0x62],
    );
    assert_eq!(out, vec![0x01, 0x90, 0x00]);
    assert_eq!((apps[0].selects, apps[0].deselects), (1, 0));

    // switching to the other app deselects the first exactly once
    let out = roundtrip(
        &mut dispatch,
        &mut rq,
        &mut apps,
        &[0x00, 0xa4, 0x04, 0x00, 0x05, 0xb0, 0x00, 0x00, 0x00, 0x11],
    );
    assert_eq!(out, vec![0x02, 0x90, 0x00]);
    assert_eq!((apps[0].selects, apps[0].deselects), (1, 1));
    assert_eq!((apps[1].selects, apps[1].deselects), (1, 0));

    // re-selecting the bound app calls its select again, deselects nothing
    let out = roundtrip(
        &mut dispatch,
        &mut rq,
        &mut apps,
        &[0x00, 0xa4, 0x04, 0x00, 0x05, 0xb0, 0x00, 0x00, 0x00, 0x11],
    );
    assert_eq!(out, vec![0x02, 0x90, 0x00]);
    assert_eq!((apps[1].selects, apps[1].deselects), (2, 0));
    assert_eq!(apps[0].deselects, 1);
}

#[test]
fn app_error_status_is_passed_verbatim() {
    let contact = Channel::new();
    let contactless = Channel::new();
    let (mut rq, rp) = contact.split().unwrap();
    let (_rq_ctl, rp_ctl) = contactless.split().unwrap();
    let mut dispatch = ApduDispatch::new(rp, rp_ctl);
    let aid = [0xa0, 0x00, 0x00, 0x00, 0x62];
    let mut app = TestApp::new(&aid, &[]);
    app.fail_with = Some(Status::SecurityStatusNotSatisfied);
    let mut apps = vec![app];

    let out = roundtrip(
        &mut dispatch,
        &mut rq,
        &mut apps,
        &[0x00, 0xa4, 0x04, 0x00, 0x05, 0xa0, 0x00, 0x00, 0x00, 0x62],
    );
    assert_eq!(out, vec![0x69, 0x82]);
}

#[test]
fn select_with_malformed_aid_rejected() {
    let contact = Channel::new();
    let contactless = Channel::new();
    let (mut rq, rp) = contact.split().unwrap();
    let (_rq_ctl, rp_ctl) = contactless.split().unwrap();
    let mut dispatch = ApduDispatch::new(rp, rp_ctl);
    let mut apps = vec![TestApp::new(&[0xa0, 0x00, 0x00, 0x00, 0x62], &[0x01])];

    // a three-byte AID is too short
    let out = roundtrip(
        &mut dispatch,
        &mut rq,
        &mut apps,
        &[0x00, 0xa4, 0x04, 0x00, 0x03, 0xa0, 0x00, 0x00],
    );
    assert_eq!(out, vec![0x6a, 0x80]);
}

#[test]
fn malformed_apdu_rejected() {
    let contact = Channel::new();
    let contactless = Channel::new();
    let (mut rq, rp) = contact.split().unwrap();
    let (_rq_ctl, rp_ctl) = contactless.split().unwrap();
    let mut dispatch = ApduDispatch::new(rp, rp_ctl);
    let mut apps = vec![TestApp::new(&[0xa0, 0x00, 0x00, 0x00, 0x62], &[0x01])];

    // too short to be an APDU
    let out = roundtrip(&mut dispatch, &mut rq, &mut apps, &[0x00, 0xa4]);
    assert_eq!(out, vec![0x6f, 0x00]);

    // invalid class byte
    let out = roundtrip(
        &mut dispatch,
        &mut rq,
        &mut apps,
        &[0xff, 0x10, 0x00, 0x00],
    );
    assert_eq!(out, vec![0x6f, 0x00]);
}

#[test]
fn command_without_bound_app_is_not_found() {
    let contact = Channel::new();
    let contactless = Channel::new();
    let (mut rq, rp) = contact.split().unwrap();
    let (_rq_ctl, rp_ctl) = contactless.split().unwrap();
    let mut dispatch = ApduDispatch::new(rp, rp_ctl);
    let mut apps = vec![TestApp::new(&[0xa0, 0x00, 0x00, 0x00, 0x62], &[0x01])];

    let out = roundtrip(
        &mut dispatch,
        &mut rq,
        &mut apps,
        &[0x00, 0x10, 0x00, 0x00, 0x00],
    );
    assert_eq!(out, vec![0x6a, 0x82]);
    assert_eq!(apps[0].calls, 0);
}

#[test]
fn long_drain_reassembles_response() {
    let contact = Channel::new();
    let contactless = Channel::new();
    let (mut rq, rp) = contact.split().unwrap();
    let (_rq_ctl, rp_ctl) = contactless.split().unwrap();
    let mut dispatch = ApduDispatch::new(rp, rp_ctl);
    let aid = [0xa0, 0x00, 0x00, 0x00, 0x62];
    let payload: Vec<u8> = (0..600u32).map(|i| (i % 251) as u8).collect();
    let mut apps = vec![TestApp::new(&aid, &[0x01])];

    let out = roundtrip(
        &mut dispatch,
        &mut rq,
        &mut apps,
        &[0x00, 0xa4, 0x04, 0x00, 0x05, 0xa0, 0x00, 0x00, 0x00, 0x62],
    );
    assert_eq!(out, vec![0x01, 0x90, 0x00]);

    apps[0].reply = payload.clone();
    // Le = 100 for the command and for every GET RESPONSE pull
    let mut reassembled: Vec<u8> = Vec::new();
    let mut out = roundtrip(
        &mut dispatch,
        &mut rq,
        &mut apps,
        &[0x00, 0x10, 0x00, 0x00, 0x64],
    );
    loop {
        let sw = out.split_off(out.len() - 2);
        reassembled.extend_from_slice(&out);
        if sw == [0x90, 0x00] {
            break;
        }
        assert_eq!(sw[0], 0x61);
        out = roundtrip(
            &mut dispatch,
            &mut rq,
            &mut apps,
            &[0x00, 0xc0, 0x00, 0x00, 0x64],
        );
    }
    assert_eq!(reassembled, payload);
}

#[test]
fn prefix_matcher_binds_by_rid() {
    let contact = Channel::new();
    let contactless = Channel::new();
    let (mut rq, rp) = contact.split().unwrap();
    let (_rq_ctl, rp_ctl) = contactless.split().unwrap();
    let mut dispatch = ApduDispatch::new(rp, rp_ctl);
    let mut apps = vec![TestApp::new(&[0xa0, 0x00, 0x00, 0x00, 0x62], &[0x07])];

    // a longer AID that starts with the app's identifier still matches
    let out = roundtrip(
        &mut dispatch,
        &mut rq,
        &mut apps,
        &[
            0x00, 0xa4, 0x04, 0x00, 0x07, 0xa0, 0x00, 0x00, 0x00, 0x62, 0x01, 0x02,
        ],
    );
    assert_eq!(out, vec![0x07, 0x90, 0x00]);
    assert_eq!(apps[0].selects, 1);
}
