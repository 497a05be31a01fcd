use aes::cipher::generic_array::GenericArray;
use aes::cipher::{BlockDecrypt, BlockEncrypt, KeyInit};
use aes::Aes128;
use padoracle::crypt::{jobs, BlockDecypt, Dec, Error, Next};
use padoracle::msg::Messages;
use padoracle::oracle;
use padoracle::prio::PrioQueue;

const KEY: [u8; 16] = [0, 1, 2, 3, 4, 5, 6, 7, 8, 9, 10, 11, 12, 13, 14, 15];
const IV: [u8; 16] = [16, 17, 18, 19, 20, 21, 22, 23, 24, 25, 26, 27, 28, 29, 30, 31];

fn aes_encrypt(block: &[u8]) -> Vec<u8> {
    let cipher = Aes128::new(GenericArray::from_slice(&KEY));
    let mut b = GenericArray::clone_from_slice(block);
    cipher.encrypt_block(&mut b);
    b.to_vec()
}

fn aes_decrypt(block: &[u8]) -> Vec<u8> {
    let cipher = Aes128::new(GenericArray::from_slice(&KEY));
    let mut b = GenericArray::clone_from_slice(block);
    cipher.decrypt_block(&mut b);
    b.to_vec()
}

// A block cipher of eight bytes, good for nothing but its size.
fn toy_encrypt(block: &[u8]) -> Vec<u8> {
    (0..8).map(|i| block[(i + 3) % 8].wrapping_mul(37).wrapping_add(11 * i as u8 + 5) ^ 0xa5).collect()
}

fn toy_decrypt(block: &[u8]) -> Vec<u8> {
    let mut out = vec![0u8; 8];
    for i in 0..8 {
        let v = (block[i] ^ 0xa5).wrapping_sub(11 * i as u8 + 5);
        // 37 * 173 = 6401 = 25 * 256 + 1
        out[(i + 3) % 8] = v.wrapping_mul(173);
    }
    out
}

fn xor(a: &[u8], b: &[u8]) -> Vec<u8> {
    a.iter().zip(b).map(|(x, y)| x ^ y).collect()
}

fn pad(message: &[u8], size: usize) -> Vec<u8> {
    let fill = size - message.len() % size;
    let mut out = message.to_vec();
    out.extend(std::iter::repeat(fill as u8).take(fill));
    out
}

/// The chained encryption of whole blocks; the initialisation vector is not
/// part of the result.
fn cbc(plain: &[u8], iv: &[u8], encrypt: fn(&[u8]) -> Vec<u8>) -> Vec<u8> {
    let mut prev = iv.to_vec();
    let mut out = Vec::new();
    for block in plain.chunks(iv.len()) {
        prev = encrypt(&xor(block, &prev));
        out.extend_from_slice(&prev);
    }
    out
}

fn valid_padding(plain: &[u8]) -> bool {
    let fill = *plain.last().unwrap() as usize;
    fill >= 1 && fill <= plain.len() && plain[plain.len() - fill..].iter().all(|b| *b as usize == fill)
}

fn truthful(decrypt: fn(&[u8]) -> Vec<u8>) -> impl FnMut(&[u8]) -> Result<bool, oracle::Error> {
    move |pair: &[u8]| {
        let size = pair.len() / 2;
        Ok(valid_padding(&xor(&decrypt(&pair[size..]), &pair[..size])))
    }
}

fn identity() -> [u8; 256] {
    let mut chars = [0u8; 256];
    for (i, c) in chars.iter_mut().enumerate() {
        *c = i as u8;
    }
    chars
}

struct Run {
    result: Result<Dec, Error>,
    events: Vec<Messages>,
    queries: Vec<Vec<u8>>,
}

fn run_block(
    target: &[u8],
    prev: &[u8],
    index: usize,
    last: bool,
    chars: &mut PrioQueue,
    mut oracle: impl FnMut(&[u8]) -> Result<bool, oracle::Error>,
) -> Run {
    let mut events = Vec::new();
    let mut queries = Vec::new();
    let mut search = match BlockDecypt::new(target, prev, index, last) {
        Ok(search) => search,
        Err(e) => return Run { result: Err(e), events, queries },
    };
    let mut step = search.start(chars);
    loop {
        events.extend(step.events);
        match step.next {
            Next::Query(payload) => {
                let reply = oracle(&payload);
                queries.push(payload);
                step = search.answer(chars, reply);
            }
            Next::Done(result) => return Run { result, events, queries },
        }
    }
}

/// Runs every job of a message in turn, each against the oracle that
/// `oracle_for` makes for its block.
fn decrypt<O: FnMut(&[u8]) -> Result<bool, oracle::Error>>(
    cipher: &[u8],
    size: u8,
    chars: &[u8; 256],
    iv: bool,
    mut oracle_for: impl FnMut(usize) -> O,
) -> (Vec<Run>, PrioQueue) {
    let mut queue = PrioQueue::new(chars.to_vec());
    let mut runs = Vec::new();
    for job in jobs(cipher, size, iv) {
        let oracle = oracle_for(job.index);
        runs.push(run_block(&job.target, &job.prev, job.index, job.last, &mut queue, oracle));
    }
    (runs, queue)
}

fn hello() -> Vec<u8> {
    let mut cipher = IV.to_vec();
    cipher.extend(cbc(&pad(b"Hello, padding!", 16), &IV, aes_encrypt));
    cipher
}

fn unwrap(run: &Run) -> &Dec {
    match &run.result {
        Ok(dec) => dec,
        Err(_) => panic!("the block was not recovered"),
    }
}

#[test]
fn single_block_with_iv_is_recovered() {
    let cipher = hello();
    assert_eq!(cipher.len(), 32);
    let (runs, _) = decrypt(&cipher, 16, &identity(), true, |_| truthful(aes_decrypt));
    assert_eq!(runs.len(), 1);
    let dec = unwrap(&runs[0]);
    assert_eq!(dec.plain, b"Hello, padding!\x01".to_vec());
    assert_eq!(dec.intermediate, aes_decrypt(&cipher[16..]));
}

#[test]
fn plain_is_intermediate_chained_with_the_block_before() {
    let message = b"The quick brown fox jumps over the lazy dog";
    let mut cipher = IV.to_vec();
    cipher.extend(cbc(&pad(message, 16), &IV, aes_encrypt));
    let (runs, _) = decrypt(&cipher, 16, &identity(), true, |_| truthful(aes_decrypt));
    assert_eq!(runs.len(), 3);
    for (k, run) in runs.iter().enumerate() {
        let dec = unwrap(run);
        assert_eq!(dec.plain, xor(&dec.intermediate, &cipher[16 * k..16 * k + 16]));
        assert_eq!(dec.intermediate, aes_decrypt(&cipher[16 * k + 16..16 * k + 32]));
    }
}

#[test]
fn round_trip_gives_the_padded_message() {
    for message in [&b"attack at dawn"[..], b"sixteen byte msg", b"", b"a somewhat longer message, of several blocks, with spaces"] {
        let padded = pad(message, 16);
        let mut cipher = IV.to_vec();
        cipher.extend(cbc(&padded, &IV, aes_encrypt));
        let (runs, _) = decrypt(&cipher, 16, &identity(), true, |_| truthful(aes_decrypt));
        let mut plain = Vec::new();
        for run in &runs {
            plain.extend_from_slice(&unwrap(run).plain);
        }
        assert_eq!(plain, padded);
    }
}

#[test]
fn block_of_padding_takes_one_question_for_each_length() {
    let padded = pad(b"sixteen byte msg", 16);
    assert_eq!(&padded[16..], &[16u8; 16]);
    let mut cipher = IV.to_vec();
    cipher.extend(cbc(&padded, &IV, aes_encrypt));
    assert_eq!(cipher.len(), 48);
    let (runs, _) = decrypt(&cipher, 16, &identity(), true, |_| truthful(aes_decrypt));
    assert_eq!(runs.len(), 2);
    assert_eq!(unwrap(&runs[0]).plain, b"sixteen byte msg".to_vec());
    let last = &runs[1];
    assert_eq!(unwrap(last).plain, vec![16u8; 16]);
    assert_eq!(unwrap(last).intermediate, aes_decrypt(&cipher[32..]));
    assert_eq!(last.queries.len(), 16);
    assert_eq!(last.events.len(), 16);
    assert!(last.events.iter().all(|e| matches!(e, Messages::Payload(_))));
}

#[test]
fn padding_of_the_last_block_is_skipped() {
    let padded = pad(b"sixteen byte msg+11 more!!!", 16);
    let mut cipher = IV.to_vec();
    cipher.extend(cbc(&padded, &IV, aes_encrypt));
    let (runs, queue) = decrypt(&cipher, 16, &identity(), true, |_| truthful(aes_decrypt));
    let last = &runs[1];
    assert_eq!(unwrap(last).plain, b"+11 more!!!\x05\x05\x05\x05\x05".to_vec());
    let solved = last.events.iter().filter(|e| matches!(e, Messages::Plain(_))).count();
    assert_eq!(solved, 11);
    // Byte 5 was found as a padding length only: it was never rewarded.
    let order = queue.iter();
    let at = |b: u8| order.iter().position(|x| *x == b).unwrap();
    assert!(at(4) < at(5));
}

#[test]
fn without_iv_every_block_is_searched() {
    let iv = [9u8, 8, 7, 6, 5, 4, 3, 2];
    let padded = pad(b"tiny msg and more", 8);
    let cipher = cbc(&padded, &iv, toy_encrypt);
    assert_eq!(toy_decrypt(&toy_encrypt(&iv)), iv.to_vec());
    let mut with_iv = iv.to_vec();
    with_iv.extend_from_slice(&cipher);

    let (runs, _) = decrypt(&cipher, 8, &identity(), false, |_| truthful(toy_decrypt));
    assert_eq!(runs.len(), 3);
    let first = unwrap(&runs[0]);
    assert_eq!(first.plain, first.intermediate);
    assert_eq!(first.intermediate, toy_decrypt(&cipher[..8]));
    assert_eq!(xor(&first.plain, &iv), padded[..8].to_vec());
    assert_eq!(unwrap(&runs[1]).plain, padded[8..16].to_vec());
    assert_eq!(unwrap(&runs[2]).plain, padded[16..].to_vec());

    let (one_less, _) = decrypt(&cipher, 8, &identity(), true, |_| truthful(toy_decrypt));
    assert_eq!(one_less.len() + 1, runs.len());
    let (same, _) = decrypt(&with_iv, 8, &identity(), true, |_| truthful(toy_decrypt));
    assert_eq!(same.len(), runs.len());
}

#[test]
fn spaces_stay_first_after_a_block_full_of_them() {
    let mut chars = identity();
    chars.swap(0, 0x20);
    let mut cipher = IV.to_vec();
    cipher.extend(cbc(b"a b c d e f g hi", &IV, aes_encrypt));
    let (runs, queue) = decrypt(&cipher, 16, &chars, true, |_| truthful(aes_decrypt));
    assert_eq!(unwrap(&runs[0]).plain, b"a b c d e f g hi".to_vec());
    let order = queue.iter();
    assert_eq!(order[0], 0x20);
    // Each solved byte was rewarded once for each time it was found.
    let fresh = PrioQueue::new(chars.to_vec()).iter();
    let at = |list: &Vec<u8>, b: u8| list.iter().position(|x| *x == b).unwrap();
    assert!(at(&order, b'a') < at(&fresh, b'a'));
    assert_eq!(&order[..2], &[0x20, 1]);
}

#[test]
fn oracle_that_always_agrees_never_runs_out_of_tries() {
    let cipher = hello();
    let (runs, _) = decrypt(&cipher, 16, &identity(), true, |_| |_: &[u8]| Ok(true));
    assert_eq!(runs.len(), 1);
    assert!(runs[0].result.is_ok());
    assert_eq!(runs[0].queries.len(), 16);
    // The first candidate is taken at every position.
    assert_eq!(unwrap(&runs[0]).plain, vec![0u8; 16]);
    assert_eq!(unwrap(&runs[0]).intermediate, IV.to_vec());
}

#[test]
fn oracle_that_never_agrees_runs_out_at_the_first_byte() {
    let cipher = hello();
    let (runs, _) = decrypt(&cipher, 16, &identity(), true, |_| |_: &[u8]| Ok(false));
    assert_eq!(runs.len(), 1);
    assert!(matches!(runs[0].result, Err(Error::Tries)));
    assert_eq!(runs[0].queries.len(), 256);
    assert!(runs[0].events.iter().all(|e| match e {
        Messages::Payload(d) => d.index() == 15 && d.block_index() == 0,
        _ => false,
    }));
}

#[test]
fn padding_search_runs_out_after_one_question_for_each_length() {
    let mut queue = PrioQueue::new(identity().to_vec());
    let run = run_block(&[1u8; 8], &[2u8; 8], 3, true, &mut queue, |_: &[u8]| Ok(false));
    assert!(matches!(run.result, Err(Error::Tries)));
    assert_eq!(run.queries.len(), 8);
    for (k, query) in run.queries.iter().enumerate() {
        // Candidate k + 1 for the padding length, aimed at a padding of 1.
        let mut expected = vec![0u8; 7];
        expected.push((k as u8 + 1) ^ 1 ^ 2);
        expected.extend_from_slice(&[1u8; 8]);
        assert_eq!(query, &expected);
    }
}

#[test]
fn reply_that_is_no_answer_fails_its_block_only() {
    let mut cipher = IV.to_vec();
    cipher.extend(cbc(&pad(b"two blocks of text here", 16), &IV, aes_encrypt));
    let (runs, _) = decrypt(&cipher, 16, &identity(), true, |block| {
        let mut honest = truthful(aes_decrypt);
        let mut asked = 0;
        move |pair: &[u8]| {
            asked += 1;
            if block == 0 && asked == 40 {
                oracle::interpret("maybe\n")
            } else {
                honest(pair)
            }
        }
    });
    assert_eq!(runs.len(), 2);
    match &runs[0].result {
        Err(Error::Oracle { source: oracle::Error::BrokenLogic { reason } }) => {
            assert_eq!(reason, "invalid choice: \"maybe\". choices are: yes/no")
        }
        _ => panic!("the block did not fail as it should"),
    }
    assert_eq!(runs[0].queries.len(), 40);
    assert_eq!(unwrap(&runs[1]).plain, b"xt here\x09\x09\x09\x09\x09\x09\x09\x09\x09".to_vec());
}

#[test]
fn broken_pipe_fails_its_block_only() {
    let mut cipher = IV.to_vec();
    cipher.extend(cbc(&pad(b"two blocks of text here", 16), &IV, aes_encrypt));
    let (runs, _) = decrypt(&cipher, 16, &identity(), true, |block| {
        let mut honest = truthful(aes_decrypt);
        move |pair: &[u8]| {
            if block == 1 {
                Err(oracle::Error::BrokenIO {
                    source: std::io::Error::new(std::io::ErrorKind::BrokenPipe, "gone"),
                })
            } else {
                honest(pair)
            }
        }
    });
    assert_eq!(runs.len(), 2);
    assert_eq!(unwrap(&runs[0]).plain, b"two blocks of te".to_vec());
    match &runs[1].result {
        Err(Error::Oracle { source: oracle::Error::BrokenIO { source } }) => {
            assert_eq!(source.kind(), std::io::ErrorKind::BrokenPipe)
        }
        _ => panic!("the block did not fail as it should"),
    }
    assert_eq!(runs[1].queries.len(), 1);
}

#[test]
fn reports_come_in_order() {
    let cipher = hello();
    let (runs, _) = decrypt(&cipher, 16, &identity(), true, |_| truthful(aes_decrypt));
    let events = &runs[0].events;
    let mut expected_index = 15i32;
    let mut i = 0;
    while i < events.len() {
        let mut payloads = 0;
        while let Messages::Payload(d) = &events[i] {
            assert_eq!(d.index() as i32, expected_index);
            assert_eq!(d.block_index(), 0);
            assert_eq!(d.block().len(), 16);
            payloads += 1;
            i += 1;
        }
        assert!(payloads >= 1);
        match (&events[i], &events[i + 1]) {
            (Messages::Intermediate(a), Messages::Plain(b)) => {
                assert_eq!(a.index() as i32, expected_index);
                assert_eq!(b.index() as i32, expected_index);
                assert_eq!(a.block()[expected_index as usize], aes_decrypt(&cipher[16..])[expected_index as usize]);
                assert_eq!(b.block()[expected_index as usize], b"Hello, padding!\x01"[expected_index as usize]);
            }
            _ => panic!("a found byte is reported as intermediate, then as plain"),
        }
        i += 2;
        expected_index -= 1;
    }
    assert_eq!(expected_index, -1);
    assert_eq!(events.len(), runs[0].queries.len() + 32);
}

#[test]
fn question_holds_the_forged_block_and_the_target() {
    let mut queue = PrioQueue::new(identity().to_vec());
    let target = [0xa0u8, 0xa1, 0xa2, 0xa3];
    let prev = [0x10u8, 0x20, 0x30, 0x40];
    let mut search = match BlockDecypt::new(&target, &prev, 7, false) {
        Ok(s) => s,
        Err(_) => panic!("refused"),
    };
    let step = search.start(&queue);
    // Candidate 0 at position 3, aimed at a padding of 1.
    match &step.next {
        Next::Query(p) => assert_eq!(p, &vec![0, 0, 0, 0 ^ 1 ^ 0x40, 0xa0, 0xa1, 0xa2, 0xa3]),
        _ => panic!("no question"),
    }
    let step = search.answer(&mut queue, Ok(false));
    // Candidate 1.
    match &step.next {
        Next::Query(p) => assert_eq!(p, &vec![0, 0, 0, 1 ^ 1 ^ 0x40, 0xa0, 0xa1, 0xa2, 0xa3]),
        _ => panic!("no question"),
    }
    let step = search.answer(&mut queue, Ok(true));
    // Plain 1 at position 3, intermediate 1 ^ 0x40; byte 1 was rewarded and
    // is now the first candidate, at position 2 and aimed at a padding of 2.
    assert_eq!(step.events.len(), 3);
    match (&step.events[0], &step.events[1], &step.events[2]) {
        (Messages::Intermediate(a), Messages::Plain(b), Messages::Payload(c)) => {
            assert_eq!(a.block(), &vec![0, 0, 0, 0x41]);
            assert_eq!(b.block(), &vec![0, 0, 0, 1]);
            assert_eq!(c.block(), &vec![0, 0, 1 ^ 2 ^ 0x30, 0x41 ^ 2]);
            assert_eq!((a.index(), b.index(), c.index()), (3, 3, 2));
            assert_eq!((a.block_index(), b.block_index(), c.block_index()), (7, 7, 7));
        }
        _ => panic!("wrong reports"),
    }
    match &step.next {
        Next::Query(p) => {
            assert_eq!(p, &vec![0, 0, 1 ^ 2 ^ 0x30, 0x41 ^ 2, 0xa0, 0xa1, 0xa2, 0xa3])
        }
        _ => panic!("no question"),
    }
    assert_eq!(&queue.iter()[..2], &[1, 0]);
}

#[test]
fn blocks_that_cannot_be_searched_are_refused() {
    let reason = |r: Result<BlockDecypt, Error>| match r {
        Err(Error::Input { reason }) => reason,
        _ => panic!("accepted"),
    };
    assert_eq!(reason(BlockDecypt::new(&[0u8; 256], &[0u8; 256], 0, false)), "blocksize must be below 256");
    assert_eq!(reason(BlockDecypt::new(&[], &[], 0, false)), "blocksize must be above 0");
    assert_eq!(
        reason(BlockDecypt::new(&[0u8; 16], &[0u8; 15], 0, true)),
        "preceding block is shorter than the block"
    );
    assert!(BlockDecypt::new(&[0u8; 255], &[0u8; 255], 0, false).is_ok());
    assert!(BlockDecypt::new(&[0u8; 1], &[0u8; 1], 0, true).is_ok());
}

#[test]
fn jobs_follow_the_message() {
    let cipher: Vec<u8> = (0..48u8).collect();
    let list = jobs(&cipher, 16, true);
    assert_eq!(list.len(), 2);
    assert_eq!(list[0].prev, (0..16u8).collect::<Vec<u8>>());
    assert_eq!(list[0].target, (16..32u8).collect::<Vec<u8>>());
    assert_eq!(list[1].prev, (16..32u8).collect::<Vec<u8>>());
    assert_eq!(list[1].target, (32..48u8).collect::<Vec<u8>>());
    assert_eq!((list[0].index, list[1].index), (0, 1));
    assert_eq!((list[0].last, list[1].last), (false, true));

    let list = jobs(&cipher, 16, false);
    assert_eq!(list.len(), 3);
    assert_eq!(list[0].prev, vec![0u8; 16]);
    assert_eq!(list[0].target, (0..16u8).collect::<Vec<u8>>());
    assert_eq!(list[2].target, (32..48u8).collect::<Vec<u8>>());
    assert_eq!((list[0].last, list[1].last, list[2].last), (false, false, true));
    assert_eq!((list[0].index, list[1].index, list[2].index), (0, 1, 2));
}

#[test]
fn two_blocks_with_iv_make_one_job_that_is_not_final() {
    let cipher = [7u8; 32];
    let list = jobs(&cipher, 16, true);
    assert_eq!(list.len(), 1);
    assert!(!list[0].last);
}

#[test]
fn one_block_without_iv_makes_one_job_that_is_final() {
    let cipher = [7u8; 16];
    let list = jobs(&cipher, 16, false);
    assert_eq!(list.len(), 1);
    assert!(list[0].last);
    assert_eq!(list[0].prev, vec![0u8; 16]);
}

#[test]
fn jobs_of_little_or_nothing() {
    assert_eq!(jobs(&[], 16, true).len(), 0);
    assert_eq!(jobs(&[], 16, false).len(), 0);
    assert_eq!(jobs(&[1u8; 16], 16, true).len(), 0);
    // A message that does not fill its last block is cut as far as it goes.
    let list = jobs(&[1u8; 20], 16, true);
    assert_eq!(list.len(), 1);
    assert_eq!(list[0].target, vec![1u8; 4]);
    assert_eq!(list[0].prev, vec![1u8; 16]);
    let list = jobs(&[1u8; 5], 1, true);
    assert_eq!(list.len(), 4);
}

#[test]
fn blocks_of_one_byte_are_searched_too() {
    // A cipher of one byte: the intermediate byte of c is c ^ 0x5a.
    let decrypt: fn(&[u8]) -> Vec<u8> = |b| vec![b[0] ^ 0x5a];
    let cipher = cbc(&[b'A', 1], &[7], decrypt);
    let mut with_iv = vec![7u8];
    with_iv.extend_from_slice(&cipher);
    let (runs, _) = decrypt_all(&with_iv, decrypt);
    assert_eq!(runs.len(), 2);
    assert_eq!(unwrap(&runs[0]).plain, vec![b'A']);
    assert_eq!(unwrap(&runs[0]).intermediate, vec![cipher[0] ^ 0x5a]);
    // 'A' is the 66th candidate of the identity set.
    assert_eq!(runs[0].queries.len(), 66);
    assert_eq!(unwrap(&runs[1]).plain, vec![1]);
    assert_eq!(runs[1].queries.len(), 1);
}

fn decrypt_all(cipher: &[u8], decrypt_block: fn(&[u8]) -> Vec<u8>) -> (Vec<Run>, PrioQueue) {
    decrypt(cipher, 1, &identity(), true, |_| truthful(decrypt_block))
}

#[test]
fn accepted_byte_is_the_candidate_chained_with_the_block_before() {
    // Whatever the oracle says yes to is taken: here the third candidate at
    // every position.
    let mut queue = PrioQueue::new(identity().to_vec());
    let prev = [0x11u8, 0x22, 0x33];
    let mut asked = 0;
    let run = run_block(&[9u8, 9, 9], &prev, 0, false, &mut queue, |_: &[u8]| {
        asked += 1;
        Ok(asked % 3 == 0)
    });
    let dec = unwrap(&run);
    // Position 2 takes byte 2, the third of 0, 1, 2, ...; rewarded, it goes
    // first, and position 1 takes byte 1, the third of 2, 0, 1, ...; then
    // position 0 takes byte 0, the third of 1, 2, 0, ...
    assert_eq!(dec.plain, vec![0, 1, 2]);
    assert_eq!(dec.intermediate, vec![0 ^ 0x11, 1 ^ 0x22, 2 ^ 0x33]);
    assert_eq!(&queue.iter()[..4], &[0, 1, 2, 3]);
    assert_eq!(run.queries.len(), 9);
}
