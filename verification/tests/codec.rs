use govai_polls::codec::{
    deserialize_poll, deserialize_vote, serialize_poll, serialize_vote, POLL_BYTES_LEN,
    VOTE_TAIL_LEN,
};
use govai_polls::records::{Poll, VoteRecord};

fn sample_poll() -> Poll {
    let mut question = vec![0u8; 256];
    question[..8].copy_from_slice(b"where to");
    let mut first = vec![0u8; 64];
    first[..4].copy_from_slice(b"here");
    let mut second = vec![0u8; 64];
    second[..5].copy_from_slice(b"there");
    Poll {
        creator: vec![7u8; 32],
        question,
        options: vec![first, second, vec![0u8; 64], vec![0u8; 64]],
        num_options: 2,
        start_slot: 10,
        end_slot: 300,
        bump: 255,
    }
}

#[test]
fn poll_layout_and_round_trip() {
    let poll = sample_poll();
    let bytes = serialize_poll(&poll);
    assert_eq!(bytes.len(), POLL_BYTES_LEN);
    // creator ‖ question ‖ options ‖ num_options ‖ start ‖ end ‖ proof byte
    assert_eq!(&bytes[..32], &poll.creator[..]);
    assert_eq!(&bytes[32..288], &poll.question[..]);
    assert_eq!(&bytes[288..352], &poll.options[0][..]);
    assert_eq!(&bytes[352..416], &poll.options[1][..]);
    assert_eq!(bytes[544], 2);
    assert_eq!(&bytes[545..553], &10u64.to_le_bytes());
    assert_eq!(&bytes[553..561], &300u64.to_le_bytes());
    assert_eq!(bytes[561], 255);

    let back = deserialize_poll(&bytes).expect("a serialized poll parses back");
    assert_eq!(back.creator, poll.creator);
    assert_eq!(back.question, poll.question);
    assert_eq!(back.options, poll.options);
    assert_eq!(back.num_options, poll.num_options);
    assert_eq!(back.start_slot, poll.start_slot);
    assert_eq!(back.end_slot, poll.end_slot);
    assert_eq!(back.bump, poll.bump);
}

#[test]
fn poll_parse_rejections() {
    assert!(deserialize_poll(&vec![0u8; 10]).is_none());
    assert!(deserialize_poll(&vec![0u8; POLL_BYTES_LEN + 1]).is_none());

    // Option count out of range.
    let mut bytes = serialize_poll(&sample_poll());
    bytes[544] = 1;
    assert!(deserialize_poll(&bytes).is_none());
    bytes[544] = 5;
    assert!(deserialize_poll(&bytes).is_none());

    // An empty activity window.
    let mut bytes = serialize_poll(&sample_poll());
    bytes[545..553].copy_from_slice(&300u64.to_le_bytes());
    assert!(deserialize_poll(&bytes).is_none());
}

#[test]
fn vote_layout_and_round_trip() {
    let vote = VoteRecord {
        poll: vec![9u8; 40],
        voter: vec![3u8; 32],
        choice_index: 1,
        weight: 1,
    };
    let bytes = serialize_vote(&vote);
    assert_eq!(bytes.len(), 40 + VOTE_TAIL_LEN);
    // poll ‖ voter ‖ choice_index ‖ weight
    assert_eq!(&bytes[..40], &vote.poll[..]);
    assert_eq!(&bytes[40..72], &vote.voter[..]);
    assert_eq!(bytes[72], 1);
    assert_eq!(&bytes[73..81], &1u64.to_le_bytes());

    let back = deserialize_vote(&bytes).expect("a serialized vote parses back");
    assert_eq!(back.poll, vote.poll);
    assert_eq!(back.voter, vote.voter);
    assert_eq!(back.choice_index, vote.choice_index);
    assert_eq!(back.weight, vote.weight);
}

#[test]
fn vote_parse_rejections() {
    assert!(deserialize_vote(&vec![0u8; VOTE_TAIL_LEN - 1]).is_none());
    // The shortest well-formed vote has an empty poll address.
    let parsed = deserialize_vote(&vec![0u8; VOTE_TAIL_LEN]).expect("fixed tail alone parses");
    assert!(parsed.poll.is_empty());
}
