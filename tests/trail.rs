use sim_core::trail::Trail;

#[test]
fn trail_never_exceeds_capacity() {
    let mut t: Trail<[i32; 3]> = Trail::new(4);
    for i in 0..50 {
        t.push([i, i * 2, -i]);
        assert!(t.len() <= 4);
    }
    assert_eq!(t.to_vec(), vec![[46, 92, -46], [47, 94, -47], [48, 96, -48], [49, 98, -49]]);
}

#[test]
fn trail_keeps_insertion_order_below_capacity() {
    let mut t: Trail<u32> = Trail::new(10);
    t.push(3);
    t.push(1);
    t.push(2);
    assert_eq!(t.to_vec(), vec![3, 1, 2]);
}

#[test]
fn lowering_capacity_evicts_oldest() {
    let mut t: Trail<u32> = Trail::new(5);
    for i in 0..5 {
        t.push(i);
    }
    t.set_capacity(2);
    assert_eq!(t.to_vec(), vec![3, 4]);
    t.push(9);
    assert_eq!(t.to_vec(), vec![4, 9]);
    assert_eq!(t.capacity(), 2);
}

#[test]
fn zero_capacity_trail_stays_empty() {
    let mut t: Trail<u8> = Trail::new(0);
    t.push(1);
    assert_eq!(t.len(), 0);
    assert!(t.to_vec().is_empty());
}

#[test]
fn snapshot_is_independent() {
    let mut t: Trail<u8> = Trail::new(3);
    t.push(1);
    let snap = t.to_vec();
    t.push(2);
    t.clear();
    assert_eq!(snap, vec![1]);
    assert_eq!(t.len(), 0);
}
