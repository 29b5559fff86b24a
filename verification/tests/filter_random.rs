use bloomfilter::Bloom;
use rand::Rng;

fn bit_count_for(items_count: usize, false_positive_rate: f64) -> usize {
    let bits = -1.0 * ((items_count as f64) * false_positive_rate.ln()) / (f64::ln(2.0)).powi(2);
    bits.ceil() as usize
}

fn hash_count_for(bit_count: usize, items_count: usize) -> usize {
    let hashes = (bit_count as f64) / (items_count as f64) * f64::ln(2.0);
    hashes.ceil() as usize
}

fn sized_for(items_count: usize, false_positive_rate: f64) -> Bloom {
    let bit_count = bit_count_for(items_count, false_positive_rate);
    let hash_count = hash_count_for(bit_count, items_count);
    match Bloom::new(bit_count, hash_count) {
        Ok(bloom) => bloom,
        Err(error) => panic!("no filter for these sizes: {:?}", error),
    }
}

#[test]
fn bloom_test_set() {
    let mut bloom = sized_for(100, 0.001);
    let key: &Vec<u8> = &rand::thread_rng().gen_iter::<u8>().take(25).collect();
    assert!(bloom.check(key) == false);
    bloom.set(&key);
    assert!(bloom.check(key) == true);
}

#[test]
fn bloom_test_clear() {
    let mut bloom = sized_for(100, 0.001);
    let key: Vec<u8> = rand::thread_rng().gen_iter::<u8>().take(25).collect();
    bloom.set(&key);
    assert!(bloom.check(&key) == true);
    bloom.clear();
    assert!(bloom.check(&key) == false);
}

#[test]
fn lib_bloom_test_set() {
    let mut bloom = sized_for(100, 0.001);
    let key: &Vec<u8> = &rand::thread_rng().gen_iter::<u8>().take(25).collect();
    assert!(bloom.check(key) == false);
    bloom.set(&key);
    assert!(bloom.check(key) == true);
}

#[test]
fn lib_bloom_test_clear() {
    let mut bloom = sized_for(100, 0.001);
    let key: Vec<u8> = rand::thread_rng().gen_iter::<u8>().take(25).collect();
    bloom.set(&key);
    assert!(bloom.check(&key) == true);
    bloom.clear();
    assert!(bloom.check(&key) == false);
}

#[test]
fn sizes_for_hundred_items_at_one_in_a_thousand() {
    assert_eq!(bit_count_for(100, 0.001), 1438);
    assert_eq!(hash_count_for(1438, 100), 10);
    let bloom = sized_for(100, 0.001);
    assert_eq!(bloom.filter_size(), 1438);
    assert_eq!(bloom.hash_size(), 10);
}

#[test]
fn scenario_check_set_check_clear_check() {
    let mut f = sized_for(100, 0.001);
    let abc: Vec<u8> = "abc".as_bytes().to_vec();
    assert_eq!(f.check(&abc), false);
    f.set(&abc);
    assert_eq!(f.check(&abc), true);
    f.clear();
    assert_eq!(f.check(&abc), false);
}

#[test]
fn no_false_negatives_with_random_seeds() {
    let mut bloom = sized_for(200, 0.01);
    let mut rng = rand::thread_rng();
    let mut keys: Vec<Vec<u8>> = Vec::new();
    for length in 0..200usize {
        let key: Vec<u8> = rng.gen_iter::<u8>().take(length % 40).collect();
        bloom.set(&key);
        keys.push(key);
    }
    for key in keys.iter() {
        assert!(bloom.check(key));
    }
}

#[test]
fn clear_forgets_every_item() {
    let mut bloom = sized_for(50, 0.01);
    let mut keys: Vec<Vec<u8>> = Vec::new();
    for n in 0..50u32 {
        let key = n.to_be_bytes().to_vec();
        bloom.set(&key);
        keys.push(key);
    }
    bloom.clear();
    for key in keys.iter() {
        assert_eq!(bloom.check(key), false);
    }
    assert_eq!(bloom.filter_size(), bit_count_for(50, 0.01));
    bloom.set(&keys[7]);
    assert!(bloom.check(&keys[7]));
}

#[test]
fn repeated_checks_agree() {
    let mut bloom = sized_for(100, 0.05);
    let present: Vec<u8> = vec![1, 2, 3, 4];
    let absent: Vec<u8> = vec![4, 3, 2, 1];
    bloom.set(&present);
    let first_present = bloom.check(&present);
    let first_absent = bloom.check(&absent);
    for _ in 0..20 {
        assert_eq!(bloom.check(&present), first_present);
        assert_eq!(bloom.check(&absent), first_absent);
    }
    assert!(first_present);
}

#[test]
fn two_filters_of_one_size_hash_differently() {
    let first = sized_for(100, 0.001);
    let second = sized_for(100, 0.001);
    let item: Vec<u8> = vec![9, 9, 9];
    assert_eq!(first.bloom_hash(&item).len(), 10);
    assert_ne!(first.bloom_hash(&item), second.bloom_hash(&item));
}

#[test]
fn false_positive_rate_stays_near_the_target() {
    let items_count: usize = 1000;
    let rate: f64 = 0.01;
    let mut bloom = sized_for(items_count, rate);
    for n in 0..items_count {
        bloom.set(&(n as u64).to_le_bytes().to_vec());
    }
    let probes: usize = 20000;
    let mut false_positives: usize = 0;
    for n in 0..probes {
        let probe = ((items_count + n) as u64).to_le_bytes().to_vec();
        if bloom.check(&probe) {
            false_positives += 1;
        }
    }
    let observed = (false_positives as f64) / (probes as f64);
    assert!(observed <= 5.0 * rate, "observed rate {}", observed);
}
