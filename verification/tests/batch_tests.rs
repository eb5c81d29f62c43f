use ddlog_ingest::batch::{batch_end, split_batches, DEFAULT_MAX_BATCH_SIZE};
use ddlog_ingest::relation::Relations;
use ddlog_ingest::tuple::{Number, Tuple};
use ddlog_ingest::update::Update;

fn updates(count: usize) -> Vec<Update> {
    (0..count)
        .map(|i| Update::Insert {
            relation: Relations::Edge,
            tuple: Tuple::Edge {
                parent: format!("p{}", i),
                child: format!("c{}", i),
                weight: Number { bits: i as u32 },
            },
        })
        .collect()
}

fn sizes(split: &[Vec<Update>]) -> Vec<usize> {
    split.iter().map(|part| part.len()).collect()
}

fn joined(split: Vec<Vec<Update>>) -> Vec<Update> {
    split.into_iter().flatten().collect()
}

#[test]
fn the_default_batch_size_is_a_thousand() {
    assert_eq!(DEFAULT_MAX_BATCH_SIZE, 1000);
}

#[test]
fn a_rest_follows_the_full_batches() {
    let split = split_batches(&updates(5), 2);
    assert_eq!(sizes(&split), vec![2, 2, 1]);
    assert_eq!(joined(split), updates(5));
}

#[test]
fn an_empty_batch_follows_where_nothing_is_left() {
    let split = split_batches(&updates(4), 2);
    assert_eq!(sizes(&split), vec![2, 2, 0]);
    assert_eq!(joined(split), updates(4));
}

#[test]
fn no_updates_give_one_empty_batch() {
    assert_eq!(split_batches(&updates(0), 1000), vec![Vec::<Update>::new()]);
}

#[test]
fn fewer_updates_than_the_size_give_one_batch() {
    assert_eq!(split_batches(&updates(3), 1000), vec![updates(3)]);
}

#[test]
fn batches_of_one() {
    let split = split_batches(&updates(3), 1);
    assert_eq!(sizes(&split), vec![1, 1, 1, 0]);
    assert_eq!(joined(split), updates(3));
}

#[test]
fn batching_keeps_count_size_and_order() {
    for limit in 1..8usize {
        for count in 0..30usize {
            let all = updates(count);
            let split = split_batches(&all, limit);
            assert_eq!(split.len(), count / limit + 1);
            assert!(split.iter().all(|part| part.len() <= limit));
            assert!(split[..split.len() - 1].iter().all(|part| part.len() == limit));
            assert_eq!(split[split.len() - 1].len(), count % limit);
            let filled = split.iter().filter(|part| !part.is_empty()).count();
            assert_eq!(filled, (count + limit - 1) / limit);
            assert_eq!(joined(split), all);
        }
    }
}

#[test]
fn a_batch_ends_at_the_limit_or_at_the_end() {
    assert_eq!(batch_end(0, 10, 4), 4);
    assert_eq!(batch_end(4, 10, 4), 8);
    assert_eq!(batch_end(8, 10, 4), 10);
    assert_eq!(batch_end(10, 10, 4), 10);
    assert_eq!(batch_end(0, 0, 4), 0);
    assert_eq!(batch_end(3, 10, 0), 3);
    assert_eq!(batch_end(5, usize::MAX, usize::MAX), usize::MAX);
    assert_eq!(batch_end(usize::MAX - 1, usize::MAX, 7), usize::MAX);
}
