use ossfs::config::DISK_CACHE_BLOCK_SIZE;
use ossfs::disk_cache::{found_block, sort_by_time, BlockLookup, DiskCache};
use ossfs::disk_format::{
    block_file, blocks_reusable, etag_file, is_block_file, is_block_file_of, is_etag_file,
    is_stale_file, meta_note, parse_order, unframe_block, Unframed,
};
use ossfs::hashes::fnv1a64;
use std::collections::BTreeMap;

/// A directory in memory, with the cache that knows of its blocks.
struct Disk {
    files: BTreeMap<String, Vec<u8>>,
    cache: DiskCache,
}

fn open(files: BTreeMap<String, Vec<u8>>, max: usize, block: usize, min_free: u64) -> Disk {
    let mut files = files;
    let note = files.get("cache.meta").map(|raw| String::from_utf8(raw.clone()).unwrap());
    if !blocks_reusable(note.as_deref(), block as u64) {
        files.retain(|name, _| !is_stale_file(name));
        files.insert("cache.meta".into(), meta_note(block as u64).into_bytes());
    }
    let mut cache = DiskCache::new(max, block, min_free);
    let lens: Vec<u64> = files
        .iter()
        .filter(|(name, _)| is_block_file(name))
        .map(|(_, raw)| raw.len() as u64)
        .collect();
    cache.rescan_used(&lens);
    let order = files.get(&cache.order_path()).map(|raw| String::from_utf8(raw.clone()).unwrap());
    if let Some(order) = order {
        cache.load_order(&order);
    }
    Disk { files, cache }
}

impl Disk {
    fn write_block(&mut self, key: &str, block: u64, data: &[u8], available: Option<u64>) {
        let Some(frame) = self.cache.block_to_write(key, data, available) else {
            return;
        };
        let name = self.cache.path_for(key, block);
        let bytes = frame.len() as u64;
        let replaced = self.files.insert(name, frame).map_or(0, |old| old.len() as u64);
        if self.cache.block_written(key, block, bytes, replaced) {
            while let Some((key, block)) = self.cache.evict_next() {
                if let Some(gone) = self.files.remove(&block_file(&key, block)) {
                    self.cache.evicted(gone.len() as u64);
                }
            }
        }
    }

    fn read_block(&mut self, key: &str, block: u64) -> Option<Vec<u8>> {
        let name = self.cache.path_for(key, block);
        let raw = self.files.get(&name).map(|raw| raw.as_slice());
        match self.cache.read_block(key, block, raw) {
            BlockLookup::Hit { data } => Some(data),
            BlockLookup::Miss => None,
            BlockLookup::Broken => {
                self.files.remove(&name);
                None
            }
        }
    }

    fn holds(&self, key: &str, block: u64) -> bool {
        self.files.contains_key(&self.cache.path_for(key, block))
    }

    fn close(mut self) -> BTreeMap<String, Vec<u8>> {
        self.files.insert(self.cache.order_path(), self.cache.save_order().into_bytes());
        self.files
    }
}

fn fresh(max: usize, block: usize, min_free: u64) -> Disk {
    open(BTreeMap::new(), max, block, min_free)
}

#[test]
fn disk_cache_lru_evicts_least_recently_used() {
    let mut disk = fresh(5 * 1024 * 1024, DISK_CACHE_BLOCK_SIZE, 0);
    let two_mib = vec![0xA5u8; 2 * 1024 * 1024];
    disk.write_block("k", 0, &two_mib, None);
    disk.write_block("k", 1, &two_mib, None);
    disk.read_block("k", 0);
    disk.write_block("k", 2, &two_mib, None);
    assert!(disk.holds("k", 0));
    assert!(disk.holds("k", 2));
    assert!(!disk.holds("k", 1));
}

#[test]
fn disk_cache_lru_order_persists_across_remount() {
    let two_mib = vec![0xB5u8; 2 * 1024 * 1024];
    let mut disk = fresh(5 * 1024 * 1024, DISK_CACHE_BLOCK_SIZE, 0);
    disk.write_block("k", 0, &two_mib, None);
    disk.write_block("k", 1, &two_mib, None);
    disk.read_block("k", 0);
    let mut disk = open(disk.close(), 5 * 1024 * 1024, DISK_CACHE_BLOCK_SIZE, 0);
    disk.write_block("k", 2, &two_mib, None);
    assert!(disk.holds("k", 0));
    assert!(disk.holds("k", 2));
    assert!(!disk.holds("k", 1));
}

#[test]
fn disk_cache_block_size_mismatch_rebuilds() {
    let mut disk = fresh(64 * 1024 * 1024, 2 * 1024 * 1024, 0);
    assert_eq!(disk.cache.block_size, 2 * 1024 * 1024);
    disk.write_block("k", 0, &[1, 2, 3], None);
    let mut disk = open(disk.close(), 64 * 1024 * 1024, 1 * 1024 * 1024, 0);
    assert_eq!(disk.cache.block_size, 1 * 1024 * 1024);
    assert_eq!(disk.cache.used, 0);
    assert_eq!(disk.read_block("k", 0), None);
}

#[test]
fn disk_cache_overwrite_tracks_size_delta() {
    let mut disk = fresh(64 * 1024 * 1024, 4 * 1024 * 1024, 0);
    disk.write_block("k", 0, &[1, 2, 3, 4], None);
    let first = disk.cache.used;
    disk.write_block("k", 0, &[1, 2], None);
    let second = disk.cache.used;
    assert_eq!(first - second, 2);
    disk.write_block("k", 0, &[1, 2, 3, 4, 5, 6], None);
    assert_eq!(disk.cache.used - second, 4);
}

#[test]
fn disk_cache_detects_corrupt_block() {
    let mut disk = fresh(64 * 1024 * 1024, 4 * 1024 * 1024, 0);
    disk.write_block("k", 0, &vec![0x5Au8; 1024], None);
    let path = disk.cache.path_for("k", 0);
    let raw = disk.files.get_mut(&path).unwrap();
    let n = raw.len();
    raw[n - 1] ^= 0xFF;
    assert_eq!(disk.read_block("k", 0), None);
    assert!(!disk.files.contains_key(&path));
}

#[test]
fn disk_cache_skips_write_below_free_space_floor() {
    let mut disk = fresh(4 * 1024 * 1024, 4 * 1024 * 1024, u64::MAX);
    disk.write_block("k", 0, b"data", Some(1 << 40));
    let blocks = disk.files.keys().filter(|name| is_block_file(name)).count();
    assert_eq!(blocks, 0);
}

#[test]
fn a_floor_counts_the_block_that_is_written() {
    let cache = DiskCache::new(1, 1, 100);
    let frame = 4 + 1 + 8 + 4;
    assert!(cache.block_to_write("k", b"data", Some(100 + frame)).is_some());
    assert!(cache.block_to_write("k", b"data", Some(100 + frame - 1)).is_none());
    assert!(cache.block_to_write("k", b"data", None).is_some());
    let free = DiskCache::new(1, 1, 0);
    assert!(free.block_to_write("k", b"data", Some(0)).is_some());
}

#[test]
fn blocks_read_back() {
    let mut disk = fresh(1024, 16, 0);
    disk.write_block("dir/\u{e9}.txt", 3, &[7, 8, 9], None);
    assert_eq!(disk.read_block("dir/\u{e9}.txt", 3), Some(vec![7, 8, 9]));
    assert_eq!(disk.read_block("dir/\u{e9}.txt", 4), None);
    let name = disk.cache.path_for("dir/\u{e9}.txt", 3);
    let raw = disk.files[&name].clone();
    assert_eq!(unframe_block("other", &raw), Unframed::Useless);
    assert_eq!(unframe_block("dir/\u{e9}.txt", &raw[..11]), Unframed::TooShort);
    assert_eq!(found_block(&name, &raw), Some(("dir/\u{e9}.txt".to_string(), 3)));
}

#[test]
fn found_blocks_keep_what_they_can_of_a_broken_key() {
    let mut raw = vec![2u8, 0, 0, 0, b'a', 0xFF];
    assert_eq!(found_block("1-0000000a.blk", &raw), Some(("a\u{fffd}".to_string(), 10)));
    raw[0] = 3;
    assert_eq!(found_block("1-0000000a.blk", &raw), None);
    assert_eq!(found_block("1-0000000g.blk", &raw), None);
    assert_eq!(found_block("10.blk", &raw), None);
}

#[test]
fn file_names_tell_what_they_hold() {
    let key = "docs/a.txt";
    let block = block_file(key, 26);
    assert_eq!(block, format!("{}-0000001a.blk", fnv1a64(key)));
    let etag = etag_file(key);
    assert_eq!(etag, format!("{}.etag", fnv1a64(key)));
    assert!(is_block_file(&block) && !is_block_file(&etag));
    assert!(is_etag_file(&etag) && !is_etag_file(&block));
    assert!(is_stale_file(&block) && is_stale_file(&etag) && is_stale_file("lru.order"));
    assert!(!is_stale_file("cache.meta"));
    assert!(is_block_file_of(&block, key));
    assert!(!is_block_file_of(&block, "docs/b.txt"));
    let cache = DiskCache::new(1, 1, 0);
    assert_eq!(cache.etag_path(key), etag);
    assert_eq!(cache.order_path(), "lru.order");
    assert_ne!(cache.temporary_path(key, 26), block);
}

#[test]
fn a_note_is_reused_for_its_own_block_size_only() {
    let note = meta_note(4096);
    assert_eq!(note, "version=2\nblock_size=4096\n");
    assert!(blocks_reusable(Some(&note), 4096));
    assert!(!blocks_reusable(Some(&note), 4097));
    assert!(!blocks_reusable(Some("version=1\nblock_size=4096\n"), 4096));
    assert!(!blocks_reusable(Some("block_size=4096\n"), 4096));
    assert!(!blocks_reusable(None, 4096));
}

#[test]
fn orders_read_back() {
    let mut cache = DiskCache::new(1024, 16, 0);
    cache.touch("a", 1);
    cache.touch("\u{e9}\t\n", 2);
    cache.touch("a", 1);
    let text = cache.save_order();
    let back = parse_order(&text);
    assert_eq!(back, vec![("\u{e9}\t\n".to_string(), 2), ("a".to_string(), 1)]);
}

#[test]
fn orders_are_rebuilt_from_times() {
    let mut cache = DiskCache::new(1024, 16, 0);
    cache.rebuild_order_from_mtime(vec![
        (30, ("c".into(), 0)),
        (-10, ("a".into(), 0)),
        (20, ("b".into(), 7)),
    ]);
    assert_eq!(
        cache.order,
        vec![("a".to_string(), 0), ("b".to_string(), 7), ("c".to_string(), 0)]
    );
    assert_eq!(sort_by_time(vec![(2, 'x'), (1, 'y')]), vec![(1, 'y'), (2, 'x')]);
}

#[test]
fn invalidating_a_key_drops_its_blocks() {
    let mut disk = fresh(1024, 16, 0);
    disk.write_block("a", 0, &[1], None);
    disk.write_block("b", 0, &[1, 2], None);
    disk.write_block("a", 1, &[1], None);
    disk.cache.invalidate("a");
    let gone: Vec<String> =
        disk.files.keys().filter(|name| is_block_file_of(name, "a")).cloned().collect();
    assert_eq!(gone.len(), 2);
    for name in gone {
        let raw = disk.files.remove(&name).unwrap();
        disk.cache.file_removed(raw.len() as u64);
    }
    assert_eq!(disk.cache.order, vec![("b".to_string(), 0)]);
    assert_eq!(disk.cache.used, disk.files[&block_file("b", 0)].len() as u64);
    disk.cache.clear();
    assert_eq!(disk.cache.used, 0);
    assert!(disk.cache.order.is_empty());
    assert!(!disk.cache.over_budget());
}

#[test]
fn the_room_is_rounded_up_to_whole_units() {
    assert_eq!(DiskCache::new(1, 0, 0).max_bytes, 1024 * 1024);
    assert_eq!(DiskCache::new(1024 * 1024, 0, 0).max_bytes, 1024 * 1024);
    assert_eq!(DiskCache::new(0, 0, 0).max_bytes, 0);
    assert_eq!(DiskCache::new(1, 0, 0).block_size, 1);
}
