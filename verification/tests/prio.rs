use padoracle::prio::{is_charset, PrioQueue};

fn identity() -> Vec<u8> {
    (0..=255u8).collect()
}

#[test]
fn fresh_queue_yields_the_charset_in_its_own_order() {
    let mut chars = identity();
    chars.reverse();
    let q = PrioQueue::new(chars.clone());
    assert_eq!(q.iter(), chars);
}

#[test]
fn iter_yields_each_byte_exactly_once() {
    let mut q = PrioQueue::new(identity());
    for b in [7u8, 7, 200, 0, 255, 31, 31, 31] {
        q.hit(b);
    }
    let order = q.iter();
    assert_eq!(order.len(), 256);
    let mut seen = [false; 256];
    for b in order {
        assert!(!seen[b as usize]);
        seen[b as usize] = true;
    }
    assert!(seen.iter().all(|s| *s));
}

#[test]
fn hit_adds_five_to_one_score() {
    // In the identity set byte 6 scores 249 and byte 0 scores 255.
    let mut q = PrioQueue::new(identity());
    q.hit(6);
    // 254 now: behind byte 1 (254) only by the tie rule, ahead of byte 2 (253).
    assert_eq!(&q.iter()[..4], &[0, 1, 6, 2]);
    q.hit(6);
    // 259 now: ahead of everything.
    assert_eq!(&q.iter()[..3], &[6, 0, 1]);
}

#[test]
fn equal_scores_come_out_by_ascending_byte() {
    let mut chars = identity();
    chars.swap(0, 5);
    // Scores: byte 5 has 255, byte 0 has 250, byte 1 has 254.
    let mut q = PrioQueue::new(chars);
    q.hit(0);
    // Byte 0 now has 255 as byte 5 does; the smaller byte goes first.
    assert_eq!(&q.iter()[..3], &[0, 5, 1]);
}

#[test]
fn iter_is_a_snapshot() {
    let mut q = PrioQueue::new(identity());
    let before = q.iter();
    q.hit(255);
    q.hit(255);
    assert_eq!(before, identity());
    assert_ne!(q.iter(), before);
}

#[test]
fn a_score_only_grows() {
    let mut chars = identity();
    chars.swap(0, 0x20);
    let mut q = PrioQueue::new(chars);
    for _ in 0..7 {
        q.hit(0x20);
    }
    assert_eq!(q.iter()[0], 0x20);
}

#[test]
fn charset_must_hold_every_byte_once() {
    assert!(is_charset(&identity()));
    let mut twice = identity();
    twice[10] = 11;
    assert!(!is_charset(&twice));
    assert!(!is_charset(&identity()[..255]));
    let mut long = identity();
    long.push(0);
    assert!(!is_charset(&long));
    assert!(!is_charset(&[]));
}
