use rtrs::engine::{angle_index_pairs, order_by_index, ray_chunk_size};

#[test]
fn angle_pairs_are_azimuth_major() {
    assert_eq!(
        angle_index_pairs(2, 3),
        vec![(0, 0), (0, 1), (0, 2), (1, 0), (1, 1), (1, 2)]
    );
    assert!(angle_index_pairs(0, 3).is_empty());
    assert!(angle_index_pairs(4, 0).is_empty());
}

#[test]
fn chunk_size_spreads_rays_over_two_chunks_per_thread() {
    assert_eq!(ray_chunk_size(10, 2), 3);
    assert_eq!(ray_chunk_size(8, 2), 2);
    assert_eq!(ray_chunk_size(1, 8), 1);
    assert_eq!(ray_chunk_size(0, 4), 1);
    assert_eq!(ray_chunk_size(7, 0), 7);
}

#[test]
fn chunks_cover_every_ray_once() {
    for n_rays in 1..40usize {
        for threads in 0..6usize {
            let size = ray_chunk_size(n_rays, threads);
            let target = std::cmp::max(threads * 2, 1);
            let n_chunks = (n_rays + size - 1) / size;
            assert!(n_chunks <= target);
            let mut covered = vec![0; n_rays];
            for chunk in 0..n_chunks {
                for offset in 0..size {
                    let idx = chunk * size + offset;
                    if idx < n_rays {
                        covered[idx] += 1;
                    }
                }
            }
            assert!(covered.iter().all(|c| *c == 1));
        }
    }
}

#[test]
fn ray_paths_are_put_back_in_ray_order() {
    let indexed = vec![(2, "c".to_string()), (0, "a".to_string()), (3, "d".to_string()), (1, "b".to_string())];
    assert_eq!(
        order_by_index(indexed),
        Some(vec!["a".to_string(), "b".to_string(), "c".to_string(), "d".to_string()])
    );
    assert_eq!(order_by_index(Vec::<(usize, u8)>::new()), Some(Vec::new()));
}

#[test]
fn reordering_needs_each_index_once() {
    assert_eq!(order_by_index(vec![(0, 'a'), (0, 'b')]), None);
    assert_eq!(order_by_index(vec![(0, 'a'), (2, 'b')]), None);
}
