use esp32serial::funnel::Funnel;

#[test]
fn empty_queue_has_nothing_to_take() {
    let mut q = Funnel::new(8);
    assert_eq!(q.len(), 0);
    assert!(!q.is_full());
    assert_eq!(q.recv(), None);
}

#[test]
fn first_in_first_out() {
    let mut q = Funnel::new(8);
    assert_eq!(q.send(vec![1]), Ok(()));
    assert_eq!(q.send(vec![2, 2]), Ok(()));
    assert_eq!(q.send(vec![3]), Ok(()));
    assert_eq!(q.len(), 3);
    assert_eq!(q.recv(), Some(vec![1]));
    assert_eq!(q.recv(), Some(vec![2, 2]));
    assert_eq!(q.recv(), Some(vec![3]));
    assert_eq!(q.recv(), None);
}

#[test]
fn full_queue_hands_the_chunk_back() {
    let mut q = Funnel::new(2);
    assert_eq!(q.send(vec![1]), Ok(()));
    assert!(!q.is_full());
    assert_eq!(q.send(vec![2]), Ok(()));
    assert!(q.is_full());
    assert_eq!(q.send(vec![3, 4]), Err(vec![3, 4]));
    assert_eq!(q.len(), 2);
    assert_eq!(q.recv(), Some(vec![1]));
    assert!(!q.is_full());
    assert_eq!(q.send(vec![3, 4]), Ok(()));
    assert_eq!(q.recv(), Some(vec![2]));
    assert_eq!(q.recv(), Some(vec![3, 4]));
    assert_eq!(q.recv(), None);
}

#[test]
fn nothing_is_lost_or_doubled_over_many_rounds() {
    let mut q = Funnel::new(3);
    let mut sent: Vec<Vec<u8>> = Vec::new();
    let mut taken: Vec<Vec<u8>> = Vec::new();
    let mut next: u8 = 0;
    for round in 0..50 {
        for _ in 0..(round % 5) {
            let chunk = vec![next, next.wrapping_mul(3)];
            if q.send(chunk.clone()).is_ok() {
                sent.push(chunk);
            }
            next = next.wrapping_add(1);
        }
        for _ in 0..(round % 3) {
            if let Some(chunk) = q.recv() {
                taken.push(chunk);
            }
        }
    }
    while let Some(chunk) = q.recv() {
        taken.push(chunk);
    }
    assert_eq!(sent, taken);
    let bytes_sent: usize = sent.iter().map(|c| c.len()).sum();
    let bytes_taken: usize = taken.iter().map(|c| c.len()).sum();
    assert_eq!(bytes_sent, bytes_taken);
}

#[test]
fn capacity_one() {
    let mut q = Funnel::new(1);
    assert_eq!(q.send(vec![7]), Ok(()));
    assert_eq!(q.send(vec![8]), Err(vec![8]));
    assert_eq!(q.recv(), Some(vec![7]));
    assert_eq!(q.send(vec![8]), Ok(()));
    assert_eq!(q.recv(), Some(vec![8]));
}
