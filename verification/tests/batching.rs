use logstats::batch::make_batches;

#[test]
fn batches_empty_input() {
    let ids: Vec<u32> = vec![];
    let batches = make_batches(&ids, 5);
    assert_eq!(batches.len(), 0);
}

#[test]
fn batches_of_seven_with_quota_five() {
    let ids: Vec<u32> = vec![200001, 200002, 200003, 200004, 200005, 200006, 200007];
    let batches = make_batches(&ids, 5);
    assert_eq!(batches.len(), 2);
    assert_eq!(batches[0], vec![200001, 200002, 200003, 200004, 200005]);
    assert_eq!(batches[1], vec![200006, 200007]);
}

#[test]
fn batches_flatten_to_input() {
    let ids: Vec<u32> = vec![9, 8, 7, 6, 5, 4, 3, 2, 1];
    let batches = make_batches(&ids, 4);
    let mut flat: Vec<u32> = Vec::new();
    for b in &batches {
        for id in b {
            flat.push(*id);
        }
    }
    assert_eq!(flat, ids);
}

#[test]
fn batches_exact_multiple() {
    let ids: Vec<u32> = vec![1, 2, 3, 4, 5, 6];
    let batches = make_batches(&ids, 3);
    assert_eq!(batches.len(), 2);
    assert_eq!(batches[0].len(), 3);
    assert_eq!(batches[1].len(), 3);
}

#[test]
fn batches_quota_one() {
    let ids: Vec<u32> = vec![10, 20, 30];
    let batches = make_batches(&ids, 1);
    assert_eq!(batches.len(), 3);
    for (i, b) in batches.iter().enumerate() {
        assert_eq!(b.len(), 1);
        assert_eq!(b[0], ids[i]);
    }
}

#[test]
fn batches_single_short_batch() {
    let ids: Vec<u32> = vec![42, 43];
    let batches = make_batches(&ids, 5);
    assert_eq!(batches.len(), 1);
    assert_eq!(batches[0], vec![42, 43]);
}
