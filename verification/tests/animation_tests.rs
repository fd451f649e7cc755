use cavestory::animate_sprite::AnimateSprite;
use cavestory::animated_tile::{AnimatedTile, Frame};
use cavestory::animation::Animation;
use cavestory::geometry::Rect;
use cavestory::tile::TileAtlas;

#[test]
fn clip_frames_tile_row_major() {
    let clip = Animation::new(Rect::new(0, 16, 16, 16), 150, false, 3, 1);
    assert_eq!(clip.frames.len(), 3);
    assert_eq!(clip.frames[0], Rect::new(0, 16, 16, 16));
    assert_eq!(clip.frames[1], Rect::new(16, 16, 16, 16));
    assert_eq!(clip.frames[2], Rect::new(32, 16, 16, 16));
    assert_eq!(clip.frame_duration, 150);
    assert!(clip.visible);
}

#[test]
fn play_once_clip_finishes_and_freezes() {
    // Three frames of 150 ms each; ticking 100 ms at a time advances a frame
    // every second tick; the wrap past the last frame flags the clip
    // invisible and frame advance stops for good.
    let mut clip = Animation::new(Rect::new(0, 0, 16, 16), 150, true, 3, 1);
    let mut wrapped_at = 0;
    for i in 1..=6 {
        clip.update(100);
        if !clip.visible {
            wrapped_at = i;
            break;
        }
    }
    assert_eq!(wrapped_at, 6);
    assert_eq!(clip.frame_index, 0);
    let frozen_index = clip.frame_index;
    for _ in 0..10 {
        clip.update(100);
        assert_eq!(clip.frame_index, frozen_index);
        assert!(!clip.visible);
    }
}

#[test]
fn looping_clip_wraps_and_stays_visible() {
    let mut clip = Animation::new(Rect::new(0, 0, 16, 16), 150, false, 3, 1);
    let mut indices = Vec::new();
    for _ in 0..12 {
        clip.update(100);
        indices.push(clip.frame_index);
        assert!(clip.visible);
    }
    assert_eq!(indices, vec![0, 1, 1, 2, 2, 0, 0, 1, 1, 2, 2, 0]);
}

#[test]
fn clip_registry_switches_without_restarting() {
    let mut sprite = AnimateSprite::new("player".to_owned());
    sprite.add_animation("walk".to_owned(), Rect::new(0, 0, 16, 16), 150, false, 3, 1);
    sprite.set_animation("walk".to_owned());
    assert!(sprite.update(200).is_ok());
    // Re-selecting the running clip must not reset its frame.
    sprite.set_animation("walk".to_owned());
    let clip = sprite.current_clip().unwrap();
    assert_eq!(clip.frame_index, 1);
}

#[test]
fn switching_clips_rewinds_the_new_clip() {
    let mut sprite = AnimateSprite::new("player".to_owned());
    sprite.add_animation("walk".to_owned(), Rect::new(0, 0, 16, 16), 150, false, 3, 1);
    sprite.add_animation("idle".to_owned(), Rect::new(0, 16, 16, 16), 150, false, 3, 1);
    sprite.set_animation("walk".to_owned());
    assert!(sprite.update(200).is_ok());
    assert_eq!(sprite.current_clip().unwrap().frame_index, 1);
    // A genuine switch selects the other clip from its first frame.
    sprite.set_animation("idle".to_owned());
    assert!(sprite.update(200).is_ok());
    assert_eq!(sprite.current_clip().unwrap().frame_index, 1);
    // Switching back rewinds the walk clip.
    sprite.set_animation("walk".to_owned());
    let clip = sprite.current_clip().unwrap();
    assert_eq!(clip.frame_index, 0);
    assert_eq!(clip.time_elapsed, 0);
}

#[test]
fn unregistered_clip_lookup_signals() {
    let mut sprite = AnimateSprite::new("player".to_owned());
    sprite.set_animation("missing".to_owned());
    assert!(sprite.update(16).is_err());
    assert!(sprite.current_clip().is_err());
}

#[test]
fn replacing_a_clip_keeps_one_entry_per_name() {
    let mut sprite = AnimateSprite::new("player".to_owned());
    sprite.add_animation("walk".to_owned(), Rect::new(0, 0, 16, 16), 150, false, 1, 1);
    sprite.add_animation("walk".to_owned(), Rect::new(0, 16, 16, 16), 150, false, 2, 1);
    assert_eq!(sprite.sprites.len(), 1);
    sprite.set_animation("walk".to_owned());
    let clip = sprite.current_clip().unwrap();
    assert_eq!(clip.frames.len(), 2);
    assert_eq!(clip.frames[0], Rect::new(0, 16, 16, 16));
}

#[test]
fn animated_tile_counts_down_then_advances_and_wraps() {
    let frames = vec![Frame { tile_id: 5, duration: 100 }, Frame { tile_id: 7, duration: 200 }];
    let mut tile = AnimatedTile::new(frames, 0, 0);
    assert_eq!(tile.get_current_frame(), 5);
    tile.update(50);
    // The spent duration advances to the next frame, taking its duration.
    assert_eq!(tile.get_current_frame(), 7);
    assert_eq!(tile.duration, 200);
    tile.update(50);
    assert_eq!(tile.duration, 150);
    tile.update(200);
    assert_eq!(tile.duration, -50);
    // Spent again on the last frame: wraps to the first.
    tile.update(50);
    assert_eq!(tile.get_current_frame(), 5);
}

#[test]
fn atlas_maps_ids_row_major() {
    let atlas = TileAtlas {
        first_gid: 1,
        tile_width: 16,
        tile_height: 16,
        columns: 4,
        rows: 2,
        image: "tileset".to_owned(),
    };
    assert_eq!(atlas.get_tile_rect(1), Rect::new(0, 0, 16, 16));
    assert_eq!(atlas.get_tile_rect(4), Rect::new(48, 0, 16, 16));
    assert_eq!(atlas.get_tile_rect(6), Rect::new(16, 16, 16, 16));
}
