use probe_flasher::image::{chunks_of_blocks, image_to_blocks, Image};

#[test]
fn insert_keeps_entries_sorted_by_address() {
    let mut img = Image::new();
    img.insert(0x10, 0xAA);
    img.insert(0x05, 0xBB);
    img.insert(0x0A, 0xCC);
    assert_eq!(img.len(), 3);
    assert_eq!(img.entry(0), (0x05, 0xBB));
    assert_eq!(img.entry(1), (0x0A, 0xCC));
    assert_eq!(img.entry(2), (0x10, 0xAA));
}

#[test]
fn insert_overwrites_a_held_address() {
    let mut img = Image::new();
    img.insert(0x05, 0x01);
    img.insert(0x05, 0x02);
    assert_eq!(img.len(), 1);
    assert_eq!(img.entry(0), (0x05, 0x02));
}

#[test]
fn blocks_split_exactly_at_address_gaps() {
    let mut img = Image::new();
    for i in 0..4u32 {
        img.insert(0x100 + i, i as u8);
    }
    img.insert(0x105, 0x99);
    let blocks = image_to_blocks(&img);
    assert_eq!(blocks.len(), 2);
    assert_eq!(blocks[0].base, 0x100);
    assert_eq!(blocks[0].data, vec![0, 1, 2, 3]);
    assert_eq!(blocks[1].base, 0x105);
    assert_eq!(blocks[1].data, vec![0x99]);
}

#[test]
fn blocks_reconstruct_the_image() {
    let mut img = Image::new();
    let pairs = [(0x200u32, 7u8), (0x201, 8), (0x300, 9), (0x301, 10), (0x303, 11)];
    for (a, b) in pairs {
        img.insert(a, b);
    }
    let blocks = image_to_blocks(&img);
    let mut rebuilt: Vec<(u32, u8)> = Vec::new();
    for blk in &blocks {
        for (i, b) in blk.data.iter().enumerate() {
            rebuilt.push((blk.base + i as u32, *b));
        }
    }
    assert_eq!(rebuilt, pairs.to_vec());
}

#[test]
fn chunks_stay_within_one_transfer() {
    let mut img = Image::new();
    for i in 0..600u32 {
        img.insert(0x08000000 + i, (i % 251) as u8);
    }
    let blocks = image_to_blocks(&img);
    let chunks = chunks_of_blocks(&blocks);
    assert_eq!(chunks.len(), 3);
    assert_eq!(chunks[0].addr, 0x08000000);
    assert_eq!(chunks[0].data.len(), 256);
    assert_eq!(chunks[1].addr, 0x08000100);
    assert_eq!(chunks[1].data.len(), 256);
    assert_eq!(chunks[2].addr, 0x08000200);
    assert_eq!(chunks[2].data.len(), 88);
    let total: usize = chunks.iter().map(|c| c.data.len()).sum();
    assert_eq!(total, 600);
}
