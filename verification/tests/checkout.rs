use supermarket::market::{Market, Supermarket};

const NUM_TEST_ITERATIONS: i32 = 1000;
const MAX_ITEMS_STRING_SIZE: usize = 1000;

/// A small deterministic generator, so that a failing run can be repeated.
struct Lcg {
    state: u64,
}

impl Lcg {
    fn new(seed: u64) -> Lcg {
        Lcg { state: seed }
    }

    fn next(&mut self) -> u64 {
        self.state = self
            .state
            .wrapping_mul(6364136223846793005)
            .wrapping_add(1442695040888963407);
        self.state >> 33
    }

    /// A number from `low` up to, not including, `high`.
    fn gen_range(&mut self, low: usize, high: usize) -> usize {
        low + (self.next() as usize) % (high - low)
    }
}

#[test]
fn canonical_input() {
    let s = Supermarket::new();
    let items = "ABBACBBAB".to_string();
    assert_eq!(240i32, s.checkout(items))
}

#[test]
fn empty_input() {
    let s = Supermarket::new();
    let items = "".to_string();
    assert_eq!(0i32, s.checkout(items))
}

#[test]
fn ignores_unrelated_items() {
    let s = Supermarket::new();
    let items = "XKD".to_string();
    assert_eq!(0i32, s.checkout(items))
}

#[test]
fn mixes_standard_and_unregistered_items_prices() {
    let s = Supermarket::new();
    let items = "AXBC".to_string();
    assert_eq!(100i32, s.checkout(items))
}

#[test]
fn single_bundle_gets_combo_price() {
    let s = Supermarket::new();
    let items = "BBBBB".to_string();
    assert_eq!(150i32, s.checkout(items))
}

#[test]
fn single_bundle_with_leftovers_gives_deal_price_plus_individual() {
    let s = Supermarket::new();
    let items = "BBBBB B".to_string();
    assert_eq!(200i32, s.checkout(items))
}

#[test]
fn multiple_bundles_each_get_deal_price() {
    let s = Supermarket::new();
    let items = "BBBBB BBBBB".to_string();
    assert_eq!(300i32, s.checkout(items))
}

#[test]
fn multiple_bundles_each_get_deal_price_plus_leftovers() {
    let s = Supermarket::new();
    let items = "BBBBB BBBBB BB".to_string();
    assert_eq!(400i32, s.checkout(items))
}

fn generate_char_sequence(rng: &mut Lcg, c: char) -> (String, i32) {
    let n = rng.gen_range(1, MAX_ITEMS_STRING_SIZE);
    let mut seq = "".to_string();
    for _i in 0..n {
        seq.push(c);
    }
    (seq, n as i32)
}

#[test]
fn correctly_sums_sequences_of_many_sizes_of_as() {
    let s = Supermarket::new();
    let mut rng = Lcg::new(1);
    for _i in 1..NUM_TEST_ITERATIONS {
        let (items, len) = generate_char_sequence(&mut rng, 'A');
        assert_eq!(len * 20, s.checkout(items));
    }
}

#[test]
fn correctly_sums_sequences_of_many_sizes_of_bs() {
    let s = Supermarket::new();
    let mut rng = Lcg::new(2);
    for _i in 1..NUM_TEST_ITERATIONS {
        let (items, len) = generate_char_sequence(&mut rng, 'B');
        assert_eq!(((len / 5) * 150) + ((len % 5) * 50), s.checkout(items));
    }
}

#[test]
fn correctly_sums_sequences_of_many_sizes_of_cs() {
    let s = Supermarket::new();
    let mut rng = Lcg::new(3);
    for _i in 1..NUM_TEST_ITERATIONS {
        let (items, len) = generate_char_sequence(&mut rng, 'C');
        assert_eq!(len * 30, s.checkout(items));
    }
}

fn generate_mixed_char_sequence(rng: &mut Lcg, chars: &[char]) -> (String, [i32; 3]) {
    let n: usize = rng.gen_range(0, MAX_ITEMS_STRING_SIZE);
    let mut count = [0i32; 3];
    let mut s = "".to_string();
    for _i in 0..n {
        let pick = rng.gen_range(0, chars.len());
        s.push(chars[pick]);
        count[pick] += 1;
    }
    (s, count)
}

/// Rigid scoring of the three standard products from their counts.
fn simple_expected_price(counts: [i32; 3]) -> i32 {
    let a_cost = counts[0] * 20;
    let b_cost = ((counts[1] / 5) * 150) + ((counts[1] % 5) * 50);
    let c_cost = counts[2] * 30;
    a_cost + b_cost + c_cost
}

#[test]
fn correctly_sums_random_sequence_of_valid_codes() {
    let standard_codes = ['A', 'B', 'C'];
    let s = Supermarket::new();
    let mut rng = Lcg::new(4);
    for _i in 0..NUM_TEST_ITERATIONS {
        let (items, counts) = generate_mixed_char_sequence(&mut rng, &standard_codes);
        assert_eq!(simple_expected_price(counts), s.checkout(items));
    }
}

#[test]
fn one_bundle_and_one_leftover_without_blank() {
    let s = Supermarket::new();
    assert_eq!(200, s.checkout("BBBBBB".to_string()));
}

#[test]
fn two_bundles_and_two_leftovers_without_blank() {
    let s = Supermarket::new();
    assert_eq!(400, s.checkout("BBBBBBBBBBBB".to_string()));
}

#[test]
fn four_of_b_are_priced_singly() {
    let s = Supermarket::new();
    assert_eq!(200, s.checkout("BBBB".to_string()));
}

#[test]
fn seven_of_a_cost_seven_times_twenty() {
    let s = Supermarket::new();
    assert_eq!(140, s.checkout("AAAAAAA".to_string()));
}

#[test]
fn three_of_c_cost_three_times_thirty() {
    let s = Supermarket::new();
    assert_eq!(90, s.checkout("CCC".to_string()));
}

#[test]
fn order_of_items_does_not_matter() {
    let s = Supermarket::new();
    let one = s.checkout("ABBACBBAB".to_string());
    let other = s.checkout("BBBBBAAAC".to_string());
    let third = s.checkout("CABABABBB".to_string());
    assert_eq!(one, other);
    assert_eq!(one, third);
    assert_eq!(240, third);
}

#[test]
fn unpriced_items_add_nothing_in_any_number() {
    let s = Supermarket::new();
    let plain = s.checkout("ABC".to_string());
    let padded = s.checkout("xAyyBzzzC    ??".to_string());
    assert_eq!(100, plain);
    assert_eq!(plain, padded);
}

#[test]
fn lower_case_codes_are_other_products() {
    let s = Supermarket::new();
    assert_eq!(0, s.checkout("abc".to_string()));
}

#[test]
fn characters_outside_ascii_are_counted_and_unpriced() {
    let s = Supermarket::new();
    assert_eq!(50, s.checkout("\u{e9}B\u{1f34e}\u{1f34e}".to_string()));
}

#[test]
fn market_is_reusable_between_checkouts() {
    let s = Supermarket::new();
    assert_eq!(150, s.checkout("BBBBB".to_string()));
    assert_eq!(20, s.checkout("A".to_string()));
    assert_eq!(150, s.checkout("BBBBB".to_string()));
}
