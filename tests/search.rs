use puzzle_search::curve::digest;
use puzzle_search::puzzle::{decode_target, format_range, parse_range, random_window, window_from};
use puzzle_search::{BigNat, CurveContext, Mode, Puzzle, PuzzleError, PuzzleJson, SearchResult, SpeedChecker};

const KEY_ONE_ADDRESS: &str = "1BgGZ9tcN4rm9KBzDn7KprQz87SZ26SAMH";
const KEY_ONE_HASH: &str = "751e76e8199196d454941c45d1b3a323f1433bd6";
const CURVE_ORDER_HEX: &str = "FFFFFFFFFFFFFFFFFFFFFFFFFFFFFFFEBAAEDCE6AF48A03BBFD25E8CD0364141";

fn hex_bytes(s: &str) -> Vec<u8> {
    (0..s.len() / 2).map(|i| u8::from_str_radix(&s[2 * i..2 * i + 2], 16).unwrap()).collect()
}

fn big(s: &str) -> BigNat {
    BigNat::parse_hex(s).unwrap()
}

fn digest_of(ctx: &CurveContext, k: u64) -> [u8; 20] {
    digest(&ctx.derive(&BigNat::from_u64(k)).unwrap())
}

fn puzzle_with_target(range: &str, target: [u8; 20]) -> Puzzle {
    let mut p = Puzzle::new(1, KEY_ONE_ADDRESS.to_string(), range.to_string(), None).unwrap();
    p.ripemd160_address = target;
    p
}

#[test]
fn hex_parsing_follows_radix_16_rules() {
    assert_eq!(BigNat::parse_hex("ff").unwrap().to_upper_hex(), "FF");
    assert_eq!(BigNat::parse_hex("+1_0").unwrap().to_upper_hex(), "10");
    assert_eq!(BigNat::parse_hex("000").unwrap().to_upper_hex(), "0");
    assert!(BigNat::parse_hex("").is_none());
    assert!(BigNat::parse_hex("_1").is_none());
    assert!(BigNat::parse_hex("g").is_none());
    assert!(BigNat::parse_hex("++1").is_none());
}

#[test]
fn arithmetic_on_big_numbers() {
    let a = BigNat::from_u64(255);
    assert_eq!(a.to_upper_hex(), "FF");
    assert_eq!(a.succ().to_upper_hex(), "100");
    assert!(a.lt(&a.succ()));
    assert!(!a.lt(&a));
    assert_eq!(a.checked_sub(&BigNat::from_u64(15)).unwrap().to_upper_hex(), "F0");
    assert!(BigNat::from_u64(3).checked_sub(&BigNat::from_u64(4)).is_none());
    assert!(BigNat::from_u64(0).is_zero());
    assert!(!BigNat::from_u64(7).is_zero());
}

#[test]
fn scalar_bytes_are_left_padded() {
    let b = BigNat::from_u64(0x0102).to_be_bytes_32().unwrap();
    assert_eq!(b.len(), 32);
    assert_eq!(&b[30..], &[1, 2]);
    assert!(b[..30].iter().all(|x| *x == 0));
    assert!(big(&format!("1{}", "0".repeat(64))).to_be_bytes_32().is_none());
}

#[test]
fn range_parses_into_two_numbers() {
    let r = parse_range("0:10").unwrap();
    assert_eq!(r.low.to_upper_hex(), "0");
    assert_eq!(r.high.to_upper_hex(), "10");
    assert_eq!(parse_range("20000000000000000:3ffffffffffffffff").unwrap().high.to_upper_hex(), "3FFFFFFFFFFFFFFFF");
}

#[test]
fn malformed_ranges_are_rejected() {
    assert_eq!(parse_range("0-10").unwrap_err(), PuzzleError::MalformedRange);
    assert_eq!(parse_range("0:1:2").unwrap_err(), PuzzleError::MalformedRange);
    assert_eq!(parse_range("zz:1").unwrap_err(), PuzzleError::MalformedRange);
    assert_eq!(parse_range(":1").unwrap_err(), PuzzleError::MalformedRange);
}

#[test]
fn range_round_trips_through_upper_hex() {
    let r = parse_range("00ab:ff").unwrap();
    let text = format_range(&r.low, &r.high);
    assert_eq!(text, "AB:FF");
    let again = parse_range(&text).unwrap();
    assert_eq!(again.low.to_upper_hex(), r.low.to_upper_hex());
    assert_eq!(again.high.to_upper_hex(), r.high.to_upper_hex());
}

#[test]
fn address_decodes_to_its_digest() {
    let t = decode_target(KEY_ONE_ADDRESS).unwrap();
    assert_eq!(t.to_vec(), hex_bytes(KEY_ONE_HASH));
}

#[test]
fn corrupted_address_is_invalid() {
    assert_eq!(decode_target("1BgGZ9tcN4rm9KBzDn7KprQz87SZ26SAMJ").unwrap_err(), PuzzleError::InvalidAddress);
    assert_eq!(decode_target("0OIl").unwrap_err(), PuzzleError::InvalidAddress);
    let short = bitcoin::base58::encode_check(&[0u8; 10]);
    assert_eq!(decode_target(&short).unwrap_err(), PuzzleError::InvalidAddress);
    assert!(Puzzle::new(1, "bad".to_string(), "0:1".to_string(), None).is_err());
}

#[test]
fn derive_and_digest_of_key_one() {
    let ctx = CurveContext::new();
    let p = ctx.derive(&BigNat::from_u64(1)).unwrap();
    assert_eq!(p[0], 2);
    assert_eq!(digest(&p).to_vec(), hex_bytes(KEY_ONE_HASH));
    assert!(ctx.derive(&BigNat::from_u64(0)).is_none());
    assert!(ctx.derive(&big(CURVE_ORDER_HEX)).is_none());
}

#[test]
fn increment_steps_match_direct_derivation() {
    let ctx = CurveContext::new();
    let p2 = ctx.derive(&BigNat::from_u64(2)).unwrap();
    let p3 = ctx.increment(&p2).unwrap();
    assert_eq!(p3, ctx.derive(&BigNat::from_u64(3)).unwrap());
    let p9 = ctx.increment_times(&p2, 7).unwrap();
    assert_eq!(p9, ctx.derive(&BigNat::from_u64(9)).unwrap());
    assert_eq!(ctx.increment_times(&p2, 0).unwrap(), p2);
}

#[test]
fn linear_finds_scalar_five() {
    let ctx = CurveContext::new();
    let mut p = puzzle_with_target("0:10", digest_of(&ctx, 5));
    assert_eq!(p.linear_mode(&ctx).unwrap(), SearchResult::Found("5".to_string()));
}

#[test]
fn linear_reports_not_found_after_five_candidates() {
    let ctx = CurveContext::new();
    let mut p = puzzle_with_target("0:5", digest_of(&ctx, 7));
    assert_eq!(p.linear_mode(&ctx).unwrap(), SearchResult::NotFound);
    assert_eq!(p.speed_checker.count(), 5);
}

#[test]
fn upper_bound_is_never_tested() {
    let ctx = CurveContext::new();
    let mut p = puzzle_with_target("1:5", digest_of(&ctx, 5));
    assert_eq!(p.linear_mode(&ctx).unwrap(), SearchResult::NotFound);
    let mut q = puzzle_with_target("1:6", digest_of(&ctx, 5));
    assert_eq!(q.linear_mode(&ctx).unwrap(), SearchResult::Found("5".to_string()));
}

#[test]
fn lower_bound_is_tested() {
    let ctx = CurveContext::new();
    let mut p = puzzle_with_target("1:5", digest_of(&ctx, 1));
    assert_eq!(p.linear_mode(&ctx).unwrap(), SearchResult::Found("1".to_string()));
}

#[test]
fn found_scalar_is_upper_case_hex() {
    let ctx = CurveContext::new();
    let mut p = puzzle_with_target("a:20", digest_of(&ctx, 0x1b));
    assert_eq!(p.linear_mode(&ctx).unwrap(), SearchResult::Found("1B".to_string()));
}

#[test]
fn empty_window_is_exhausted_at_once() {
    let ctx = CurveContext::new();
    let mut p = puzzle_with_target("5:5", digest_of(&ctx, 5));
    assert_eq!(p.linear_mode(&ctx).unwrap(), SearchResult::NotFound);
    assert_eq!(p.speed_checker.count(), 0);
}

#[test]
fn window_past_curve_order_is_invalid_scalar() {
    let ctx = CurveContext::new();
    let mut p = puzzle_with_target("0:1", digest_of(&ctx, 5));
    let order = big(CURVE_ORDER_HEX);
    assert_eq!(p.compute(&ctx, &order, &order.succ()).unwrap_err(), PuzzleError::InvalidScalar);
}

#[test]
fn stepping_onto_curve_order_is_curve_error() {
    let ctx = CurveContext::new();
    let mut p = puzzle_with_target("0:1", digest_of(&ctx, 5));
    let order = big(CURVE_ORDER_HEX);
    let last = order.checked_sub(&BigNat::from_u64(1)).unwrap();
    assert_eq!(p.compute(&ctx, &last, &order.succ()).unwrap_err(), PuzzleError::CurveArithmeticError);
    assert_eq!(p.compute(&ctx, &last, &order).unwrap(), SearchResult::NotFound);
}

#[test]
fn malformed_range_fails_every_mode() {
    let ctx = CurveContext::new();
    let mut p = puzzle_with_target("0;5", digest_of(&ctx, 5));
    assert_eq!(p.linear_mode(&ctx).unwrap_err(), PuzzleError::MalformedRange);
    assert_eq!(p.linear_but_start_at_random_mode(&ctx).unwrap_err(), PuzzleError::MalformedRange);
    assert_eq!(p.random_mode(&ctx, &BigNat::from_u64(1), 3).unwrap_err(), PuzzleError::MalformedRange);
}

#[test]
fn random_window_underflow_is_resampled() {
    let low = BigNat::from_u64(0);
    let inc = BigNat::from_u64(3);
    for sample in [0u64, 1, 0, 1, 2] {
        assert!(random_window(&low, &inc, &BigNat::from_u64(sample)).is_none());
    }
    let w = random_window(&low, &inc, &BigNat::from_u64(5)).unwrap();
    assert_eq!(w.min.to_upper_hex(), "2");
    assert_eq!(w.max.to_upper_hex(), "5");
}

#[test]
fn random_window_never_starts_below_low() {
    let low = BigNat::from_u64(10);
    let inc = BigNat::from_u64(4);
    assert!(random_window(&low, &inc, &BigNat::from_u64(13)).is_none());
    let w = random_window(&low, &inc, &BigNat::from_u64(14)).unwrap();
    assert_eq!(w.min.to_upper_hex(), "A");
    for m in 10u64..40 {
        if let Some(w) = random_window(&low, &inc, &BigNat::from_u64(m)) {
            assert!(!w.min.lt(&low));
        }
    }
}

#[test]
fn random_mode_with_no_valid_window_keeps_drawing() {
    let ctx = CurveContext::new();
    let mut p = puzzle_with_target("0:2", digest_of(&ctx, 1));
    assert_eq!(p.random_mode(&ctx, &BigNat::from_u64(3), 200).unwrap(), SearchResult::NotFound);
    assert_eq!(p.speed_checker.count(), 0);
}

#[test]
fn random_mode_finds_key_in_small_range() {
    let ctx = CurveContext::new();
    let mut p = puzzle_with_target("1:8", digest_of(&ctx, 3));
    let r = p.start(&ctx, Mode::Random { increment: BigNat::from_u64(6) }).unwrap();
    assert_eq!(r, SearchResult::Found("3".to_string()));
}

#[test]
fn random_start_scans_to_the_end() {
    let ctx = CurveContext::new();
    let mut p = puzzle_with_target("5:6", digest_of(&ctx, 5));
    assert_eq!(p.start(&ctx, Mode::LinearButStartAtRandom).unwrap(), SearchResult::Found("5".to_string()));
    let w = window_from(&BigNat::from_u64(3), &BigNat::from_u64(9));
    assert_eq!(w.min.to_upper_hex(), "3");
    assert_eq!(w.max.to_upper_hex(), "9");
}

#[test]
fn start_linear_dispatches() {
    let ctx = CurveContext::new();
    let mut p = puzzle_with_target("0:10", digest_of(&ctx, 0xf));
    assert_eq!(p.start(&ctx, Mode::Linear).unwrap(), SearchResult::Found("F".to_string()));
}

#[test]
fn from_json_builds_a_puzzle() {
    let data = PuzzleJson {
        number: 1,
        address: KEY_ONE_ADDRESS.to_string(),
        range: "1:1".to_string(),
        private: Some("1".to_string()),
    };
    let p = Puzzle::from_json(&data).unwrap();
    assert_eq!(p.number, 1);
    assert_eq!(p.ripemd160_address.to_vec(), hex_bytes(KEY_ONE_HASH));
    assert_eq!(p.range, "1:1");
    assert_eq!(p.solution, Some("1".to_string()));
    let r = p.range().unwrap();
    assert_eq!(r.low.to_upper_hex(), "1");
}

#[test]
fn key_one_puzzle_is_solved_from_its_address() {
    let ctx = CurveContext::new();
    let mut p = Puzzle::new(1, KEY_ONE_ADDRESS.to_string(), "1:2".to_string(), None).unwrap();
    assert_eq!(p.linear_mode(&ctx).unwrap(), SearchResult::Found("1".to_string()));
}

#[test]
fn speed_checker_counts_and_reports() {
    let (tx, rx) = std::sync::mpsc::channel();
    let mut s = SpeedChecker::new();
    s.set_reports(tx);
    assert_eq!(s.count(), 0);
    assert_eq!(s.advance(false), None);
    assert_eq!(s.advance(false), None);
    assert_eq!(s.count(), 2);
    for _ in 0..8 {
        s.advance(false);
    }
    assert_eq!(s.advance(true), Some(2));
    assert_eq!(s.count(), 0);
    s.update();
    assert!(s.count() <= 1);
    assert!(rx.try_recv().is_err());
}

#[test]
fn random_round_scans_only_valid_windows() {
    let ctx = CurveContext::new();
    let mut p = puzzle_with_target("0:10", digest_of(&ctx, 4));
    let low = BigNat::from_u64(0);
    let inc = BigNat::from_u64(3);
    assert_eq!(p.random_round(&ctx, &low, &inc, &BigNat::from_u64(2)).unwrap(), SearchResult::NotFound);
    assert_eq!(p.speed_checker.count(), 0);
    assert_eq!(p.random_round(&ctx, &low, &inc, &BigNat::from_u64(4)).unwrap(), SearchResult::NotFound);
    assert_eq!(p.speed_checker.count(), 3);
    assert_eq!(p.random_round(&ctx, &low, &inc, &BigNat::from_u64(6)).unwrap(), SearchResult::Found("4".to_string()));
}

#[test]
fn random_round_returns_scan_error() {
    let ctx = CurveContext::new();
    let mut p = puzzle_with_target("0:1", digest_of(&ctx, 4));
    let order = big(CURVE_ORDER_HEX);
    let m = order.succ();
    assert_eq!(
        p.random_round(&ctx, &BigNat::from_u64(0), &BigNat::from_u64(1), &m).unwrap_err(),
        PuzzleError::InvalidScalar
    );
}

#[test]
fn random_mode_with_no_draws_finds_nothing() {
    let ctx = CurveContext::new();
    let mut p = puzzle_with_target("1:8", digest_of(&ctx, 3));
    assert_eq!(p.random_mode(&ctx, &BigNat::from_u64(6), 0).unwrap(), SearchResult::NotFound);
    assert_eq!(p.speed_checker.count(), 0);
}
