use crux::graphics::error::GraphicsError;
use crux::graphics::manager::{ImageManager, MAX_IMAGE_BYTES, MAX_PENDING_CHUNKS};
use crux::graphics::types::{ImageData, ImageId, ImagePlacement, PixelFormat};

fn make_image(size: usize) -> ImageData {
    ImageData::new(vec![0u8; size], 1, 1, PixelFormat::Bgra)
}

#[test]
fn test_store_and_retrieve() {
    let mut mgr = ImageManager::new();
    let id = ImageId(1);
    let img = make_image(100);
    mgr.store_image(id, img).unwrap();

    assert!(mgr.has_image(id));
    assert_eq!(mgr.image_count(), 1);
    assert_eq!(mgr.total_bytes(), 100);

    let data = mgr.get_image(id).unwrap();
    assert_eq!(data.byte_size(), 100);
}

#[test]
fn test_delete_image() {
    let mut mgr = ImageManager::new();
    let id = ImageId(1);
    mgr.store_image(id, make_image(100)).unwrap();
    mgr.delete_image(id).unwrap();

    assert!(!mgr.has_image(id));
    assert_eq!(mgr.image_count(), 0);
    assert_eq!(mgr.total_bytes(), 0);
}

#[test]
fn test_delete_nonexistent_image() {
    let mut mgr = ImageManager::new();
    let result = mgr.delete_image(ImageId(999));
    assert!(result.is_err());
}

#[test]
fn test_delete_all() {
    let mut mgr = ImageManager::new();
    mgr.store_image(ImageId(1), make_image(100)).unwrap();
    mgr.store_image(ImageId(2), make_image(200)).unwrap();
    mgr.delete_all();

    assert_eq!(mgr.image_count(), 0);
    assert_eq!(mgr.total_bytes(), 0);
}

#[test]
fn test_replace_existing_image() {
    let mut mgr = ImageManager::new();
    let id = ImageId(1);
    mgr.store_image(id, make_image(100)).unwrap();
    assert_eq!(mgr.total_bytes(), 100);

    mgr.store_image(id, make_image(200)).unwrap();
    assert_eq!(mgr.image_count(), 1);
    assert_eq!(mgr.total_bytes(), 200);
}

#[test]
fn test_quota_enforcement() {
    let mut mgr = ImageManager::with_quota(500);
    mgr.store_image(ImageId(1), make_image(200)).unwrap();
    mgr.store_image(ImageId(2), make_image(200)).unwrap();

    // This should trigger eviction of image 1
    mgr.store_image(ImageId(3), make_image(200)).unwrap();

    assert!(!mgr.has_image(ImageId(1))); // evicted (LRU)
    assert!(mgr.has_image(ImageId(2)));
    assert!(mgr.has_image(ImageId(3)));
    assert!(mgr.total_bytes() <= 500);
}

#[test]
fn test_lru_eviction_order() {
    let mut mgr = ImageManager::with_quota(300);
    mgr.store_image(ImageId(1), make_image(100)).unwrap();
    mgr.store_image(ImageId(2), make_image(100)).unwrap();
    mgr.store_image(ImageId(3), make_image(100)).unwrap();

    // Access image 1 to make it recently used
    let _ = mgr.get_image(ImageId(1));

    // Adding image 4 should evict image 2 (LRU), not image 1
    mgr.store_image(ImageId(4), make_image(100)).unwrap();

    assert!(mgr.has_image(ImageId(1))); // recently accessed
    assert!(!mgr.has_image(ImageId(2))); // evicted (LRU)
    assert!(mgr.has_image(ImageId(3)));
    assert!(mgr.has_image(ImageId(4)));
}

#[test]
fn test_per_image_size_limit() {
    let mut mgr = ImageManager::new();
    let result = mgr.store_image(ImageId(1), make_image(MAX_IMAGE_BYTES + 1));
    assert!(matches!(result, Err(GraphicsError::ImageTooLarge { .. })));
}

#[test]
fn test_place_image() {
    let mut mgr = ImageManager::new();
    let id = ImageId(1);
    mgr.store_image(id, make_image(100)).unwrap();

    let placement = ImagePlacement::new(id);
    mgr.place_image(placement).unwrap();

    let placements = mgr.get_placements_in_range(0, 100);
    assert_eq!(placements.len(), 1);
}

#[test]
fn test_place_nonexistent_image() {
    let mut mgr = ImageManager::new();
    let placement = ImagePlacement::new(ImageId(999));
    let result = mgr.place_image(placement);
    assert!(matches!(result, Err(GraphicsError::ImageNotFound(_))));
}

#[test]
fn test_delete_placement() {
    let mut mgr = ImageManager::new();
    let id = ImageId(1);
    mgr.store_image(id, make_image(100)).unwrap();

    let mut placement = ImagePlacement::new(id);
    placement.placement_id = 5;
    mgr.place_image(placement).unwrap();

    mgr.delete_placement(id, 5).unwrap();
    let placements = mgr.get_placements_in_range(0, 100);
    assert!(placements.is_empty());
}

#[test]
fn test_placements_sorted_by_z_index() {
    let mut mgr = ImageManager::new();
    let id = ImageId(1);
    mgr.store_image(id, make_image(100)).unwrap();

    let mut p1 = ImagePlacement::new(id);
    p1.placement_id = 1;
    p1.z_index = 10;
    mgr.place_image(p1).unwrap();

    let mut p2 = ImagePlacement::new(id);
    p2.placement_id = 2;
    p2.z_index = -5;
    mgr.place_image(p2).unwrap();

    let mut p3 = ImagePlacement::new(id);
    p3.placement_id = 3;
    p3.z_index = 0;
    mgr.place_image(p3).unwrap();

    let placements = mgr.get_placements_in_range(0, 100);
    assert_eq!(placements.len(), 3);
    assert_eq!(placements[0].z_index, -5);
    assert_eq!(placements[1].z_index, 0);
    assert_eq!(placements[2].z_index, 10);
}

#[test]
fn test_chunked_transfer() {
    let mut mgr = ImageManager::new();
    mgr.append_chunk(1, b"AAAA").unwrap();
    assert!(mgr.has_pending_chunks(1));
    mgr.append_chunk(1, b"BBBB").unwrap();

    let data = mgr.complete_chunked_transfer(1).unwrap();
    assert_eq!(data, b"AAAABBBB");
    assert!(!mgr.has_pending_chunks(1));
}

#[test]
fn test_auto_id_assignment() {
    let mut mgr = ImageManager::new();
    let id1 = mgr.next_image_id();
    let id2 = mgr.next_image_id();
    assert_eq!(id1, ImageId(1));
    assert_eq!(id2, ImageId(2));
}

#[test]
fn test_placement_range_filtering() {
    let mut mgr = ImageManager::new();
    let id = ImageId(1);
    mgr.store_image(id, make_image(100)).unwrap();

    let mut p1 = ImagePlacement::new(id);
    p1.placement_id = 1;
    p1.row = 5;
    mgr.place_image(p1).unwrap();

    let mut p2 = ImagePlacement::new(id);
    p2.placement_id = 2;
    p2.row = 15;
    mgr.place_image(p2).unwrap();

    // Only p1 should be in range [0, 10)
    let placements = mgr.get_placements_in_range(0, 10);
    assert_eq!(placements.len(), 1);
    assert_eq!(placements[0].row, 5);

    // Both should be in range [0, 20)
    let placements = mgr.get_placements_in_range(0, 20);
    assert_eq!(placements.len(), 2);
}

#[test]
fn test_eviction_removes_placements() {
    let mut mgr = ImageManager::with_quota(200);
    let id1 = ImageId(1);
    mgr.store_image(id1, make_image(100)).unwrap();
    mgr.place_image(ImagePlacement::new(id1)).unwrap();

    let id2 = ImageId(2);
    mgr.store_image(id2, make_image(100)).unwrap();

    // This should evict id1 along with its placements
    let id3 = ImageId(3);
    mgr.store_image(id3, make_image(100)).unwrap();

    assert!(!mgr.has_image(id1));
    let placements = mgr.get_placements_in_range(0, 100);
    assert!(placements.iter().all(|p| p.image_id != id1));
}

#[test]
fn image_larger_than_quota_evicts_everything_then_is_refused() {
    let mut mgr = ImageManager::with_quota(150);
    mgr.store_image(ImageId(1), make_image(100)).unwrap();
    let result = mgr.store_image(ImageId(2), make_image(200));
    assert!(matches!(result, Err(GraphicsError::QuotaExceeded { used: 200, quota: 150 })));
    assert!(!mgr.has_image(ImageId(1)));
    assert!(!mgr.has_image(ImageId(2)));
    assert_eq!(mgr.total_bytes(), 0);
}

#[test]
fn total_bytes_is_sum_of_stored_sizes() {
    let mut mgr = ImageManager::new();
    mgr.store_image(ImageId(1), make_image(10)).unwrap();
    mgr.store_image(ImageId(2), make_image(20)).unwrap();
    mgr.store_image(ImageId(3), make_image(30)).unwrap();
    assert_eq!(mgr.total_bytes(), 60);
    mgr.delete_image(ImageId(2)).unwrap();
    assert_eq!(mgr.total_bytes(), 40);
    assert_eq!(mgr.quota_bytes(), 320 * 1024 * 1024);
}

#[test]
fn auto_ids_skip_zero_and_never_repeat_soon() {
    let mut mgr = ImageManager::new();
    let mut last = 0;
    for _ in 0..5 {
        let id = mgr.next_image_id();
        assert!(id.0 > last);
        last = id.0;
    }
}

#[test]
fn complete_unknown_transfer_gives_none() {
    let mut mgr = ImageManager::new();
    assert!(mgr.complete_chunked_transfer(7).is_none());
    assert!(!mgr.has_pending_chunks(7));
}

#[test]
fn delete_unknown_placement_is_an_error() {
    let mut mgr = ImageManager::new();
    mgr.store_image(ImageId(1), make_image(10)).unwrap();
    assert!(mgr.delete_placement(ImageId(1), 3).is_err());
    assert!(mgr.delete_placement(ImageId(2), 0).is_err());
}

#[test]
fn oversized_chunk_accumulation_is_refused() {
    let mut mgr = ImageManager::new();
    let big = vec![0u8; 64 * 1024 * 1024];
    mgr.append_chunk(1, &big).unwrap();
    let result = mgr.append_chunk(1, b"x");
    assert!(matches!(result, Err(GraphicsError::ImageTooLarge { .. })));
    assert!(!mgr.has_pending_chunks(1));
}

#[test]
fn pending_transfer_limit_refuses_a_new_transfer() {
    let mut mgr = ImageManager::new();
    for id in 0..MAX_PENDING_CHUNKS as u32 {
        mgr.append_chunk(id, b"AA").unwrap();
    }
    let result = mgr.append_chunk(1000, b"BB");
    assert!(matches!(
        result,
        Err(GraphicsError::QuotaExceeded { used, quota }) if used == MAX_PENDING_CHUNKS + 1 && quota == MAX_PENDING_CHUNKS
    ));
    assert!(!mgr.has_pending_chunks(1000));
    for id in 0..MAX_PENDING_CHUNKS as u32 {
        assert!(mgr.has_pending_chunks(id));
    }
    // an existing transfer still grows
    mgr.append_chunk(0, b"CC").unwrap();
    assert_eq!(mgr.complete_chunked_transfer(0), Some(b"AACC".to_vec()));
    mgr.append_chunk(1000, b"BB").unwrap();
    assert!(mgr.has_pending_chunks(1000));
}

#[test]
fn deleting_placements_and_images_leaves_none_behind() {
    let mut mgr = ImageManager::new();
    mgr.store_image(ImageId(1), make_image(4)).unwrap();
    let mut placement = ImagePlacement::new(ImageId(1));
    placement.placement_id = 7;
    mgr.place_image(placement).unwrap();
    assert!(mgr.delete_placement(ImageId(1), 8).is_err());
    assert!(mgr.delete_placement(ImageId(2), 7).is_err());
    assert!(mgr.delete_placement(ImageId(1), 7).is_ok());
    mgr.place_image(placement).unwrap();
    mgr.delete_image(ImageId(1)).unwrap();
    assert!(mgr.get_placements_in_range(i32::MIN, i32::MAX).is_empty());
    assert!(mgr.delete_placement(ImageId(1), 7).is_err());
}

#[test]
fn failed_restore_keeps_the_placements_of_the_dropped_image() {
    let mut mgr = ImageManager::with_quota(100);
    mgr.store_image(ImageId(1), make_image(50)).unwrap();
    mgr.place_image(ImagePlacement::new(ImageId(1))).unwrap();
    let result = mgr.store_image(ImageId(1), make_image(200));
    assert!(matches!(result, Err(GraphicsError::QuotaExceeded { .. })));
    assert!(!mgr.has_image(ImageId(1)));
    assert_eq!(mgr.get_placements_in_range(0, 1).len(), 1);
}
