use govai_polls::addr::{derive_poll_address, derive_vote_address};
use govai_polls::errors::{GovError, OpError};
use govai_polls::ledger::Ledger;
use govai_polls::ops::{cast_vote, create_poll, CastVote, CreatePoll};
use govai_polls::pack::{pack_bytes, unpack_bytes};
use govai_polls::records::Record;

fn identity(tag: u8) -> Vec<u8> {
    vec![tag; 32]
}

fn padded(text: &[u8], width: usize) -> Vec<u8> {
    let mut buf = vec![0u8; width];
    buf[..text.len()].copy_from_slice(text);
    buf
}

fn make_poll(
    ledger: &mut Ledger,
    creator: u8,
    question: &[u8],
    options: &[&[u8]],
    start_slot: u64,
    end_slot: u64,
) -> Result<(), OpError> {
    let ctx = CreatePoll { creator: identity(creator) };
    let opts: Vec<Vec<u8>> = options.iter().map(|o| o.to_vec()).collect();
    create_poll(ledger, &ctx, &question.to_vec(), &opts, start_slot, end_slot)
}

#[test]
fn created_poll_reads_back() {
    let mut ledger = Ledger::new();
    let question = b"favourite colour?";
    let r = make_poll(&mut ledger, 1, question, &[b"red", b"blue"], 10, 20);
    assert_eq!(r, Ok(()));
    let (address, bump) = derive_poll_address(&identity(1), &question.to_vec());
    match ledger.read_record(&address) {
        Some(Record::Poll(p)) => {
            assert_eq!(p.creator, identity(1));
            assert_eq!(p.question, padded(question, 256));
            assert_eq!(p.options.len(), 4);
            assert_eq!(p.options[0], padded(b"red", 64));
            assert_eq!(p.options[1], padded(b"blue", 64));
            assert_eq!(p.options[2], vec![0u8; 64]);
            assert_eq!(p.options[3], vec![0u8; 64]);
            assert_eq!(p.num_options, 2);
            assert_eq!(p.start_slot, 10);
            assert_eq!(p.end_slot, 20);
            assert_eq!(p.bump, bump);
            assert_eq!(unpack_bytes(&p.question), question.to_vec());
            assert_eq!(unpack_bytes(&p.options[1]), b"blue".to_vec());
        }
        _ => panic!("expected a poll record at the derived address"),
    }
}

#[test]
fn too_few_options_rejected() {
    let mut ledger = Ledger::new();
    let r = make_poll(&mut ledger, 1, b"q", &[b"only"], 10, 20);
    assert_eq!(r, Err(OpError::Gov(GovError::NotEnoughOptions)));
    let (address, _) = derive_poll_address(&identity(1), &b"q".to_vec());
    assert!(ledger.read_record(&address).is_none());
}

#[test]
fn too_many_options_rejected() {
    let mut ledger = Ledger::new();
    let r = make_poll(&mut ledger, 1, b"q", &[b"a", b"b", b"c", b"d", b"e"], 10, 20);
    assert_eq!(r, Err(OpError::Gov(GovError::TooManyOptions)));
    let (address, _) = derive_poll_address(&identity(1), &b"q".to_vec());
    assert!(ledger.read_record(&address).is_none());
}

#[test]
fn invalid_time_range_rejected() {
    let mut ledger = Ledger::new();
    let r = make_poll(&mut ledger, 1, b"q", &[b"a", b"b"], 20, 20);
    assert_eq!(r, Err(OpError::Gov(GovError::InvalidTimeRange)));
    let r = make_poll(&mut ledger, 1, b"q", &[b"a", b"b"], 21, 20);
    assert_eq!(r, Err(OpError::Gov(GovError::InvalidTimeRange)));
}

#[test]
fn question_length_cap() {
    let mut ledger = Ledger::new();
    let long = vec![b'x'; 257];
    let r = make_poll(&mut ledger, 1, &long, &[b"a", b"b"], 10, 20);
    assert_eq!(r, Err(OpError::Gov(GovError::InvalidQuestionLen)));
    let (address, _) = derive_poll_address(&identity(1), &long);
    assert!(ledger.read_record(&address).is_none());

    let exact = vec![b'x'; 256];
    let r = make_poll(&mut ledger, 1, &exact, &[b"a", b"b"], 10, 20);
    assert_eq!(r, Ok(()));
    let (address, _) = derive_poll_address(&identity(1), &exact);
    match ledger.read_record(&address) {
        Some(Record::Poll(p)) => assert_eq!(p.question, exact),
        _ => panic!("expected the poll at the cap to be stored"),
    }
}

#[test]
fn option_length_cap() {
    let mut ledger = Ledger::new();
    let long = vec![b'y'; 65];
    let r = make_poll(&mut ledger, 1, b"q", &[b"a", &long], 10, 20);
    assert_eq!(r, Err(OpError::Gov(GovError::InvalidOptionLen)));
    let (address, _) = derive_poll_address(&identity(1), &b"q".to_vec());
    assert!(ledger.read_record(&address).is_none());

    let exact = vec![b'y'; 64];
    let r = make_poll(&mut ledger, 1, b"q", &[b"a", &exact], 10, 20);
    assert_eq!(r, Ok(()));
    match ledger.read_record(&address) {
        Some(Record::Poll(p)) => assert_eq!(p.options[1], exact),
        _ => panic!("expected the poll with the full-width option to be stored"),
    }
}

#[test]
fn empty_option_accepted() {
    // A zero-byte option is within the length cap and packs to zeros alone.
    let mut ledger = Ledger::new();
    let r = make_poll(&mut ledger, 1, b"q", &[b"", b"b"], 10, 20);
    assert_eq!(r, Ok(()));
    let (address, _) = derive_poll_address(&identity(1), &b"q".to_vec());
    match ledger.read_record(&address) {
        Some(Record::Poll(p)) => {
            assert_eq!(p.options[0], vec![0u8; 64]);
            assert_eq!(unpack_bytes(&p.options[0]), Vec::<u8>::new());
        }
        _ => panic!("expected the poll with the empty option"),
    }
}

#[test]
fn duplicate_poll_collides() {
    let mut ledger = Ledger::new();
    let r = make_poll(&mut ledger, 1, b"q", &[b"a", b"b"], 10, 20);
    assert_eq!(r, Ok(()));
    let r = make_poll(&mut ledger, 1, b"q", &[b"c", b"d"], 30, 40);
    assert_eq!(r, Err(OpError::AlreadyExists));
    // The first record stands untouched.
    let (address, _) = derive_poll_address(&identity(1), &b"q".to_vec());
    match ledger.read_record(&address) {
        Some(Record::Poll(p)) => {
            assert_eq!(p.options[0], padded(b"a", 64));
            assert_eq!(p.start_slot, 10);
        }
        _ => panic!("expected the first poll record to stand"),
    }
}

#[test]
fn vote_window_boundaries() {
    let mut ledger = Ledger::new();
    make_poll(&mut ledger, 1, b"q", &[b"a", b"b"], 100, 200).unwrap();
    let (poll, _) = derive_poll_address(&identity(1), &b"q".to_vec());

    let early = CastVote { poll: poll.clone(), voter: identity(2) };
    assert_eq!(
        cast_vote(&mut ledger, 50, &early, 0),
        Err(OpError::Gov(GovError::PollNotActive))
    );
    let at_start = CastVote { poll: poll.clone(), voter: identity(3) };
    assert_eq!(cast_vote(&mut ledger, 100, &at_start, 0), Ok(()));
    let at_end = CastVote { poll: poll.clone(), voter: identity(4) };
    assert_eq!(cast_vote(&mut ledger, 200, &at_end, 0), Ok(()));
    let late = CastVote { poll: poll.clone(), voter: identity(5) };
    assert_eq!(
        cast_vote(&mut ledger, 201, &late, 0),
        Err(OpError::Gov(GovError::PollNotActive))
    );
}

#[test]
fn choice_index_range() {
    let mut ledger = Ledger::new();
    make_poll(&mut ledger, 1, b"q", &[b"a", b"b", b"c"], 100, 200).unwrap();
    let (poll, _) = derive_poll_address(&identity(1), &b"q".to_vec());

    let ctx = CastVote { poll: poll.clone(), voter: identity(2) };
    assert_eq!(
        cast_vote(&mut ledger, 150, &ctx, 3),
        Err(OpError::Gov(GovError::InvalidChoice))
    );
    // The refusal wrote nothing: the same voter may still cast a valid choice.
    assert_eq!(cast_vote(&mut ledger, 150, &ctx, 2), Ok(()));
}

#[test]
fn double_vote_collides() {
    let mut ledger = Ledger::new();
    make_poll(&mut ledger, 1, b"q", &[b"a", b"b"], 100, 200).unwrap();
    let (poll, _) = derive_poll_address(&identity(1), &b"q".to_vec());

    let ctx = CastVote { poll: poll.clone(), voter: identity(2) };
    assert_eq!(cast_vote(&mut ledger, 150, &ctx, 0), Ok(()));
    assert_eq!(cast_vote(&mut ledger, 160, &ctx, 1), Err(OpError::AlreadyExists));

    // Exactly one record stands for the pair, the one the first cast stored.
    let (vote_address, _) = derive_vote_address(&poll, &identity(2));
    match ledger.read_record(&vote_address) {
        Some(Record::Vote(v)) => {
            assert_eq!(v.poll, poll);
            assert_eq!(v.voter, identity(2));
            assert_eq!(v.choice_index, 0);
            assert_eq!(v.weight, 1);
        }
        _ => panic!("expected the first vote record"),
    }

    // Another voter on the same poll is unaffected.
    let other = CastVote { poll: poll.clone(), voter: identity(3) };
    assert_eq!(cast_vote(&mut ledger, 160, &other, 1), Ok(()));
}

#[test]
fn vote_on_missing_poll() {
    let mut ledger = Ledger::new();
    let ctx = CastVote { poll: vec![7u8; 40], voter: identity(2) };
    assert_eq!(cast_vote(&mut ledger, 150, &ctx, 0), Err(OpError::PollNotFound));
}

#[test]
fn pack_round_trip_full_width() {
    let text: Vec<u8> = (1..=64u8).collect();
    let buf = pack_bytes(&text, 64);
    assert_eq!(buf, text);
    assert_eq!(unpack_bytes(&buf), text);
}

#[test]
fn pack_empty_option() {
    let empty: Vec<u8> = Vec::new();
    let buf = pack_bytes(&empty, 64);
    assert_eq!(buf, vec![0u8; 64]);
    assert_eq!(unpack_bytes(&buf), empty);
}

#[test]
fn pack_pads_and_trims() {
    let text = b"yes".to_vec();
    let buf = pack_bytes(&text, 64);
    assert_eq!(buf.len(), 64);
    assert_eq!(&buf[..3], b"yes");
    assert!(buf[3..].iter().all(|&b| b == 0));
    assert_eq!(unpack_bytes(&buf), text);
}

#[test]
fn derivation_deterministic_and_distinct() {
    let q = b"q".to_vec();
    let (a1, b1) = derive_poll_address(&identity(1), &q);
    let (a2, b2) = derive_poll_address(&identity(1), &q);
    assert_eq!(a1, a2);
    assert_eq!(b1, b2);

    let (other_creator, _) = derive_poll_address(&identity(2), &q);
    assert_ne!(a1, other_creator);
    let (other_question, _) = derive_poll_address(&identity(1), &b"r".to_vec());
    assert_ne!(a1, other_question);

    let (vote_addr, _) = derive_vote_address(&a1, &identity(1));
    assert_ne!(a1, vote_addr);
    // An address is never identity-shaped.
    assert!(a1.len() > 32);
    assert!(vote_addr.len() > 32);
}
