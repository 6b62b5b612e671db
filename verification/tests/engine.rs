use hnsw_index::{DistanceType, HnswError, IndexConfig, SearchResult};
use hnsw_rs::prelude::{DistL2, Hnsw};

struct Index {
    config: IndexConfig,
    graph: Hnsw<'static, f32, DistL2>,
}

fn create(config: IndexConfig) -> Index {
    let p = config.engine_params();
    let graph = Hnsw::new(p.max_nb_connection, p.max_elements, p.max_layer, p.ef_construction, DistL2 {});
    Index { config, graph }
}

fn l2(dimension: u32, max_elements: u64) -> IndexConfig {
    IndexConfig::new(16, max_elements, 16, 200, dimension, DistanceType::L2)
}

fn insert(index: &Index, data: Vec<f32>, id: u64) -> Result<(), HnswError> {
    let engine_id = index.config.insert_request(&data, id)?;
    index.graph.insert((data.as_slice(), engine_id));
    Ok(())
}

fn insert_batch(index: &Index, data: Vec<Vec<f32>>, ids: Vec<u64>) -> Result<(), HnswError> {
    let engine_ids = index.config.batch_request(&data, &ids)?;
    let pairs: Vec<(&Vec<f32>, usize)> = data.iter().zip(engine_ids).collect();
    index.graph.parallel_insert(&pairs);
    Ok(())
}

fn search(index: &Index, query: Vec<f32>, k: u32, ef_search: u32) -> Result<Vec<SearchResult>, HnswError> {
    let params = index.config.search_request(&query, k, ef_search)?;
    let found = index.graph.search(&query, params.knbn, params.ef);
    Ok(found.into_iter().map(|n| SearchResult::new(n.d_id, n.distance.to_bits())).collect())
}

fn len(index: &Index) -> u64 {
    index.graph.get_nb_point() as u64
}

fn compact(index: &Index, tombstones: Vec<u64>, requested: IndexConfig) -> Result<Index, HnswError> {
    index.config.check_shape(&requested)?;
    let points: Vec<_> = if index.graph.get_nb_point() == 0 {
        Vec::new()
    } else {
        index.graph.get_point_indexation().into_iter().collect()
    };
    let ids: Vec<u64> = points.iter().map(|p| p.get_origin_id() as u64).collect();
    let plan = index.config.plan_compaction(&requested, &ids, &tombstones)?;
    let p = requested.engine_params();
    let graph = Hnsw::new(p.max_nb_connection, plan.capacity, p.max_layer, p.ef_construction, DistL2 {});
    for (point, keep) in points.iter().zip(plan.keep.iter()) {
        if *keep {
            graph.insert((point.get_v(), point.get_origin_id()));
        }
    }
    Ok(Index { config: requested, graph })
}

fn three_points() -> Index {
    let index = create(l2(3, 100));
    insert(&index, vec![0.0, 0.0, 0.0], 1).unwrap();
    insert(&index, vec![1.0, 0.0, 0.0], 2).unwrap();
    insert(&index, vec![10.0, 10.0, 10.0], 3).unwrap();
    index
}

fn line(n: u64) -> Index {
    let index = create(l2(2, 100));
    for id in 0..n {
        insert(&index, vec![id as f32, 0.0], id).unwrap();
    }
    index
}

fn ids_of(results: &[SearchResult]) -> Vec<u64> {
    results.iter().map(|r| r.id).collect()
}

#[test]
fn nearest_two_of_three_points() {
    let index = three_points();
    let found = search(&index, vec![0.0, 0.0, 0.0], 2, 10).unwrap();
    assert_eq!(found.len(), 2);
    assert_eq!(found[0].id, 1);
    assert_eq!(f32::from_bits(found[0].distance_bits), 0.0);
    assert_eq!(found[1].id, 2);
    assert_eq!(f32::from_bits(found[1].distance_bits), 1.0);
}

#[test]
fn search_in_an_index_without_points_finds_nothing() {
    let index = create(l2(3, 100));
    assert_eq!(search(&index, vec![0.0, 0.0, 0.0], 2, 10), Ok(Vec::new()));
}

#[test]
fn search_with_a_query_of_wrong_length_is_refused() {
    let index = three_points();
    assert_eq!(
        search(&index, vec![0.0, 0.0], 2, 10),
        Err(HnswError::DimensionMismatch { expected: 3, got: 2 })
    );
}

#[test]
fn insert_of_wrong_length_leaves_the_count() {
    let index = three_points();
    assert_eq!(len(&index), 3);
    assert_eq!(
        insert(&index, vec![1.0, 2.0, 3.0, 4.0], 9),
        Err(HnswError::DimensionMismatch { expected: 3, got: 4 })
    );
    assert_eq!(len(&index), 3);
}

#[test]
fn batch_of_three_vectors_and_two_ids_inserts_nothing() {
    let index = three_points();
    let data = vec![vec![0.0, 0.0, 1.0], vec![0.0, 1.0, 0.0], vec![1.0, 1.0, 0.0]];
    assert!(matches!(insert_batch(&index, data, vec![10, 11]), Err(HnswError::IoError(_))));
    assert_eq!(len(&index), 3);
}

#[test]
fn batch_with_one_bad_vector_inserts_nothing() {
    let index = three_points();
    let data = vec![vec![0.0, 0.0, 1.0], vec![0.0, 1.0], vec![1.0, 1.0, 0.0]];
    assert_eq!(
        insert_batch(&index, data, vec![10, 11, 12]),
        Err(HnswError::DimensionMismatch { expected: 3, got: 2 })
    );
    assert_eq!(len(&index), 3);
}

#[test]
fn batch_that_fits_is_inserted_whole() {
    let index = three_points();
    let data = vec![vec![0.0, 0.0, 1.0], vec![0.0, 1.0, 0.0], vec![1.0, 1.0, 0.0]];
    assert_eq!(insert_batch(&index, data, vec![10, 11, 12]), Ok(()));
    assert_eq!(len(&index), 6);
}

#[test]
fn compaction_without_tombstones_keeps_count_and_answers() {
    let index = line(8);
    let before = search(&index, vec![2.2, 0.0], 3, 20).unwrap();
    let rebuilt = compact(&index, vec![], l2(2, 100)).unwrap();
    assert_eq!(len(&rebuilt), len(&index));
    assert_eq!(search(&rebuilt, vec![2.2, 0.0], 3, 20).unwrap(), before);
    assert_eq!(ids_of(&before), vec![2, 3, 1]);
}

#[test]
fn compaction_removes_tombstoned_points() {
    let index = line(8);
    let rebuilt = compact(&index, vec![2, 5, 99], l2(2, 100)).unwrap();
    assert_eq!(len(&rebuilt), 8 - 2);
    let found = search(&rebuilt, vec![2.0, 0.0], 8, 20).unwrap();
    assert_eq!(found.len(), 6);
    assert!(found.iter().all(|r| r.id != 2 && r.id != 5));
    assert_eq!(len(&index), 8);
}

#[test]
fn compaction_keeps_one_point_of_each_identifier() {
    let index = create(l2(2, 100));
    insert(&index, vec![0.0, 0.0], 1).unwrap();
    insert(&index, vec![1.0, 0.0], 1).unwrap();
    insert(&index, vec![2.0, 0.0], 2).unwrap();
    insert(&index, vec![3.0, 0.0], 1).unwrap();
    assert_eq!(len(&index), 4);
    let rebuilt = compact(&index, vec![], l2(2, 100)).unwrap();
    assert_eq!(len(&rebuilt), 2);
    let mut ids = ids_of(&search(&rebuilt, vec![0.0, 0.0], 4, 20).unwrap());
    ids.sort();
    assert_eq!(ids, vec![1, 2]);
}

#[test]
fn compaction_into_too_small_a_capacity_holds_every_survivor() {
    let index = line(8);
    let rebuilt = compact(&index, vec![0], l2(2, 3)).unwrap();
    assert_eq!(len(&rebuilt), 7);
    let mut ids = ids_of(&search(&rebuilt, vec![4.0, 0.0], 8, 20).unwrap());
    ids.sort();
    assert_eq!(ids, vec![1, 2, 3, 4, 5, 6, 7]);
}

#[test]
fn compaction_of_an_index_without_points_is_empty() {
    let index = create(l2(2, 100));
    let rebuilt = compact(&index, vec![1, 2], l2(2, 5)).unwrap();
    assert_eq!(len(&rebuilt), 0);
}

#[test]
fn compaction_into_another_dimension_is_refused() {
    let index = line(3);
    assert_eq!(
        compact(&index, vec![], l2(3, 100)).err(),
        Some(HnswError::DimensionMismatch { expected: 2, got: 3 })
    );
}

#[test]
fn compaction_into_another_metric_is_refused() {
    let index = line(3);
    let requested = IndexConfig::new(16, 100, 16, 200, 2, DistanceType::Dot);
    assert_eq!(compact(&index, vec![], requested).err(), Some(HnswError::DistanceMismatch));
}
