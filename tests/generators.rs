use stressr::config::{Config, Flag, Invocation};
use stressr::cpu::{cpu_plan, keep_running};
use stressr::disk::{scratch_file_name, worker_slots, DiskWorker, IoSetupError, WorkerSlot};
use stressr::memory::{allocate_blocks, blocks_needed, memory_target_kb, BLOCK_BYTES, PAGE_BYTES};
use stressr::prng::{fill_random, simple_prng};
use stressr::probe::{parse_meminfo_total_kb, parse_memsize_kb, total_memory_kb, FALLBACK_MEMORY_KB};
use stressr::text::{parse_u64, split_on_char, str_eq, trim_str, whitespace_tokens};

fn args(list: &[&str]) -> Vec<String> {
    list.iter().map(|s| s.to_string()).collect()
}

fn run_config(list: &[&str]) -> Config {
    match Config::from_args(&args(list)) {
        Invocation::Run(c) => c,
        other => panic!("expected a run, got {:?}", other),
    }
}

#[test]
fn test_detect_memory() {
    let text = "MemTotal:       16318480 kB\nMemFree:         1234567 kB\n";
    let mem_kb = total_memory_kb(parse_meminfo_total_kb(text)).kb;
    assert!(mem_kb > 128_000, "Should detect >128MB of RAM, got {}", mem_kb);
}

#[test]
fn test_simple_memory_stress() {
    let target = memory_target_kb(204_800, 1);
    assert_eq!(target, 2048);
    let count = blocks_needed(target);
    assert_eq!(count, 2);
    let blocks = allocate_blocks(count as usize);
    assert_eq!(blocks.len(), 2);
    assert!(blocks.iter().all(|b| b.len() == BLOCK_BYTES));
}

#[test]
fn test_disk_io_worker_write_only() {
    let mut w = DiskWorker::new(9999, 1, 4, false, false, true).unwrap();
    let mut buffer = vec![0u8; w.chunk_size as usize];
    for k in 0..300u64 {
        let off = w.begin_op(&mut buffer).unwrap();
        assert_eq!(off, (k * 4096) % (1048576 - 4096));
    }
    assert_eq!(w.ops, 300);
    assert_eq!(w.bytes_processed(), 300 * 4096);
    assert_eq!(w.mode_label(), "W");
    assert_eq!(scratch_file_name(9999), "worker_9999.tmp");
}

#[test]
fn test_cpu_stress_smoke() {
    let plan = cpu_plan(10, Some(8));
    assert_eq!(plan.threads, 8);
    assert_eq!(plan.busy_ms, 10);
    assert_eq!(plan.idle_ms, 90);
    assert!(keep_running(0, 1000));
    assert!(!keep_running(1000, 1000));
}

#[test]
fn cpu_plan_spawns_one_worker_per_core() {
    for c in 1..=16u64 {
        for p in 1..=99u64 {
            let plan = cpu_plan(p, Some(c));
            assert_eq!(plan.threads, c);
            assert_eq!(plan.busy_ms + plan.idle_ms, 100);
        }
    }
}

#[test]
fn cpu_plan_edges() {
    assert_eq!(cpu_plan(0, Some(2)).busy_ms, 0);
    assert_eq!(cpu_plan(0, Some(2)).idle_ms, 100);
    assert_eq!(cpu_plan(100, Some(2)).idle_ms, 0);
    assert_eq!(cpu_plan(150, Some(2)).idle_ms, 0);
    assert_eq!(cpu_plan(150, Some(2)).busy_ms, 150);
    assert_eq!(cpu_plan(50, None).threads, 4);
    assert_eq!(cpu_plan(50, Some(0)).threads, 4);
}

#[test]
fn zero_cpu_percent_starts_no_cpu_generator() {
    let c = run_config(&["--memory-percent", "5"]);
    let units = c.units();
    assert!(!units.cpu);
    assert!(units.memory);
    assert!(!units.io);
    let c = run_config(&["--cpu-percent", "50", "--io"]);
    let units = c.units();
    assert!(units.cpu);
    assert!(!units.memory);
    assert!(units.io);
}

#[test]
fn detect_memory_fallback() {
    let none = total_memory_kb(None);
    assert_eq!(none.kb, FALLBACK_MEMORY_KB);
    assert!(none.is_fallback);
    let zero = total_memory_kb(Some(0));
    assert_eq!(zero.kb, 1048576);
    assert!(zero.is_fallback);
    let found = total_memory_kb(Some(5000));
    assert_eq!(found.kb, 5000);
    assert!(!found.is_fallback);
}

#[test]
fn meminfo_parsing() {
    assert_eq!(parse_meminfo_total_kb("MemTotal: 2048 kB"), Some(2048));
    assert_eq!(
        parse_meminfo_total_kb("MemFree: 10 kB\r\nMemTotal:\t 777 kB\r\n"),
        Some(777)
    );
    assert_eq!(parse_meminfo_total_kb("MemFree: 10 kB\n"), None);
    assert_eq!(parse_meminfo_total_kb("MemTotal: abc kB\nMemTotal: 12 kB"), Some(12));
    assert_eq!(parse_meminfo_total_kb("MemTotal:"), None);
    assert_eq!(parse_meminfo_total_kb(""), None);
    assert_eq!(parse_meminfo_total_kb(" MemTotal: 5 kB"), None);
}

#[test]
fn memsize_parsing() {
    assert_eq!(parse_memsize_kb("hw.memsize: 17179869184\n"), Some(16777216));
    assert_eq!(parse_memsize_kb("hw.memsize: 2047"), Some(1));
    assert_eq!(parse_memsize_kb("hw.memsize:"), None);
    assert_eq!(parse_memsize_kb("   "), None);
}

#[test]
fn memory_allocation_covers_target_within_one_block() {
    for &(total, percent) in &[(16_318_480u64, 50u64), (1_048_576, 1), (1000, 100), (3, 7), (0, 10)] {
        let target = memory_target_kb(total, percent);
        assert_eq!(target, (total as u128) * (percent as u128) / 100);
        let n = blocks_needed(target);
        assert!(n * 1048576 >= target * 1024);
        assert!(n * 1048576 < target * 1024 + 1048576);
    }
    assert_eq!(blocks_needed(0), 0);
    assert_eq!(blocks_needed(1), 1);
    assert_eq!(blocks_needed(1024), 1);
    assert_eq!(blocks_needed(1025), 2);
    assert_eq!(memory_target_kb(u64::MAX, u64::MAX), (u64::MAX as u128) * (u64::MAX as u128) / 100);
}

#[test]
fn allocated_blocks_have_each_page_written() {
    let blocks = allocate_blocks(1);
    let b = &blocks[0];
    for (k, byte) in b.iter().enumerate() {
        let expected = if k % PAGE_BYTES == 0 { 1 } else { 0 };
        assert_eq!(*byte, expected);
    }
    assert!(allocate_blocks(0).is_empty());
}

#[test]
fn prng_known_values() {
    let mut s = 0u64;
    assert_eq!(simple_prng(&mut s), 1);
    assert_eq!(simple_prng(&mut s), 6364136223846793006);
    assert_eq!(simple_prng(&mut s), 13885033948157127959);
    assert_eq!(s, 13885033948157127959);
    let mut t = 9999u64;
    assert_eq!(simple_prng(&mut t), 12177792019839733412);
}

#[test]
fn reseeded_stream_reproduces_written_pattern() {
    let mut written = vec![0u8; 4096];
    let mut state = 42u64;
    fill_random(&mut state, &mut written);
    assert_eq!(&written[..4], &[99, 104, 73, 214]);
    let mut read_back = vec![0xFFu8; 4096];
    let mut fresh = 42u64;
    fill_random(&mut fresh, &mut read_back);
    assert_eq!(written, read_back);
    assert_eq!(state, fresh);
    let mut longer = vec![0u8; 8192];
    let mut again = 42u64;
    fill_random(&mut again, &mut longer);
    assert_eq!(&longer[..4096], &written[..]);
}

#[test]
fn sequential_offsets_wrap_after_file_end() {
    let mut w = DiskWorker::new(0, 1, 4, false, true, false).unwrap();
    let mut buf = vec![0u8; 4096];
    let mut offsets = Vec::new();
    for _ in 0..256 {
        offsets.push(w.begin_op(&mut buf).unwrap());
    }
    assert_eq!(offsets[0], 0);
    assert_eq!(offsets[1], 4096);
    assert_eq!(offsets[254], 254 * 4096);
    assert_eq!(offsets[255], 0);
    assert!(offsets[1..].iter().any(|&o| o == 0));
    assert!(buf.iter().all(|&b| b == 0));
    assert_eq!(w.mode_label(), "R");
}

#[test]
fn random_offsets_spread_over_the_span() {
    let mut w = DiskWorker::new(7, 1, 4, true, true, true).unwrap();
    let span = 1048576u64 - 4096;
    let mut buf = vec![0u8; 4096];
    let first = w.begin_op(&mut buf).unwrap();
    assert_eq!(first, 80444);
    let mut buckets = [0u32; 10];
    for _ in 0..10_000 {
        let off = w.begin_op(&mut buf).unwrap();
        assert!(off < span);
        buckets[(off * 10 / span) as usize] += 1;
    }
    for &b in &buckets {
        assert!(b > 500, "buckets {:?}", buckets);
    }
    assert_eq!(w.mode_label(), "WR");
}

#[test]
fn write_fills_buffer_after_random_draw() {
    let mut w = DiskWorker::new(42, 1, 4, false, false, true).unwrap();
    let mut buf = vec![0u8; 4];
    w.begin_op(&mut buf).unwrap();
    assert_eq!(buf, vec![99, 104, 73, 214]);
    let mut n = DiskWorker::new(3, 1, 4, false, false, false).unwrap();
    let mut untouched = vec![5u8; 4];
    n.begin_op(&mut untouched).unwrap();
    assert_eq!(untouched, vec![5u8; 4]);
    assert_eq!(n.state, 3);
    assert_eq!(n.mode_label(), "");
}

#[test]
fn exhausted_counter_stops_the_worker() {
    let mut w = DiskWorker::new(1, 1, 4, false, false, true).unwrap();
    w.ops = u64::MAX;
    let mut buf = vec![0u8; 8];
    assert_eq!(w.begin_op(&mut buf), None);
    assert_eq!(w.ops, u64::MAX);
    assert_eq!(buf, vec![0u8; 8]);
    assert_eq!(w.bytes_processed(), (u64::MAX as u128) * 4096);
}

#[test]
fn worker_setup_errors() {
    assert_eq!(DiskWorker::new(0, 1, 1024, false, false, false).unwrap_err(), IoSetupError::ChunkNotSmallerThanFile);
    assert_eq!(DiskWorker::new(0, 1, 2048, false, false, false).unwrap_err(), IoSetupError::ChunkNotSmallerThanFile);
    assert_eq!(DiskWorker::new(0, 0, 0, false, false, false).unwrap_err(), IoSetupError::ChunkNotSmallerThanFile);
    assert_eq!(DiskWorker::new(0, u64::MAX, 4, false, false, false).unwrap_err(), IoSetupError::SizeOverflow);
    assert_eq!(DiskWorker::new(0, 1, u64::MAX, false, false, false).unwrap_err(), IoSetupError::SizeOverflow);
    let w = DiskWorker::new(5, 100, 64, true, true, false).unwrap();
    assert_eq!(w.total_bytes, 104_857_600);
    assert_eq!(w.chunk_size, 65_536);
    assert_eq!(w.state, 5);
    assert_eq!(w.ops, 0);
}

#[test]
fn scratch_names() {
    assert_eq!(scratch_file_name(0), "worker_0.tmp");
    assert_eq!(scratch_file_name(10), "worker_10.tmp");
    assert_eq!(scratch_file_name(u64::MAX), "worker_18446744073709551615.tmp");
}

#[test]
fn slots_cover_every_path_and_worker() {
    let s = worker_slots(2, 3);
    assert_eq!(s.len(), 6);
    assert_eq!(s[0], WorkerSlot { path_index: 0, worker_id: 0 });
    assert_eq!(s[2], WorkerSlot { path_index: 0, worker_id: 2 });
    assert_eq!(s[3], WorkerSlot { path_index: 1, worker_id: 0 });
    assert_eq!(s[5], WorkerSlot { path_index: 1, worker_id: 2 });
    assert!(worker_slots(0, 3).is_empty());
    assert!(worker_slots(3, 0).is_empty());
}

#[test]
fn parse_u64_like_std() {
    for s in ["0", "42", "+7", "18446744073709551615", "18446744073709551616", "", "+", "-1", "1a", " 1", "007"] {
        assert_eq!(parse_u64(s), s.parse::<u64>().ok(), "input {:?}", s);
    }
}

#[test]
fn text_helpers() {
    assert!(str_eq("--io", "--io"));
    assert!(!str_eq("--io", "--io-read"));
    assert_eq!(trim_str("  a b \t"), "a b");
    assert_eq!(trim_str(" \u{3000} "), "");
    assert_eq!(split_on_char("a,,b,", ','), vec!["a", "", "b", ""]);
    assert_eq!(split_on_char("", ','), vec![""]);
    assert_eq!(whitespace_tokens("  ab  c\td "), vec!["ab", "c", "d"]);
    assert!(whitespace_tokens(" \n ").is_empty());
}

#[test]
fn help_and_version() {
    assert!(matches!(Config::from_args(&args(&[])), Invocation::Help));
    assert!(matches!(Config::from_args(&args(&["--cpu-percent", "5", "-h"])), Invocation::Help));
    assert!(matches!(Config::from_args(&args(&["--help"])), Invocation::Help));
    assert!(matches!(Config::from_args(&args(&["--help", "-v"])), Invocation::Version));
    assert!(matches!(Config::from_args(&args(&["--version"])), Invocation::Version));
}

#[test]
fn defaults_and_unknown_flags() {
    let c = run_config(&["--bogus"]);
    assert_eq!(c.cpu_percent, 0);
    assert_eq!(c.memory_percent, 0);
    assert_eq!(c.duration_secs, 30);
    assert!(!c.io_enabled);
    assert_eq!(c.io_paths, vec!["/tmp".to_string()]);
    assert_eq!(c.io_workers, 2);
    assert_eq!(c.io_size_mb, 100);
    assert_eq!(c.io_duration_secs, 30);
    assert!(!c.io_random && !c.io_read && !c.io_write);
    assert_eq!(c.chunk_size_kb, 64);
}

#[test]
fn cpu_scenario_arguments() {
    let c = run_config(&["--cpu-percent", "50", "--duration", "2"]);
    assert_eq!(c.cpu_percent, 50);
    assert_eq!(c.duration_secs, 2);
    assert!(c.units().cpu);
}

#[test]
fn io_scenario_arguments() {
    let c = run_config(&[
        "--io", "--io-paths", "/tmp", "--io-workers", "1", "--io-size", "1", "--io-duration", "1",
        "--io-write", "--chunk-size", "4",
    ]);
    assert!(c.io_enabled);
    assert_eq!(c.io_paths, vec!["/tmp".to_string()]);
    assert_eq!(c.io_workers, 1);
    assert_eq!(c.io_size_mb, 1);
    assert_eq!(c.io_duration_secs, 1);
    assert!(c.io_write && !c.io_read && !c.io_random);
    assert_eq!(c.chunk_size_kb, 4);
    let slots = worker_slots(c.io_paths.len() as u64, c.io_workers);
    assert_eq!(slots, vec![WorkerSlot { path_index: 0, worker_id: 0 }]);
    assert!(DiskWorker::new(0, c.io_size_mb, c.chunk_size_kb, c.io_random, c.io_read, c.io_write).is_ok());
}

#[test]
fn malformed_values_fall_back_and_last_wins() {
    let c = run_config(&["--duration", "x", "--io-workers", "-3", "--chunk-size"]);
    assert_eq!(c.duration_secs, 30);
    assert_eq!(c.io_workers, 2);
    assert_eq!(c.chunk_size_kb, 64);
    let c = run_config(&["--cpu-percent", "oops"]);
    assert_eq!(c.cpu_percent, 0);
    let c = run_config(&["--cpu-percent", "10", "--cpu-percent", "20", "--io-paths", " /a , /b ,/c"]);
    assert_eq!(c.cpu_percent, 20);
    assert_eq!(c.io_paths, vec!["/a".to_string(), "/b".to_string(), "/c".to_string()]);
    let c = run_config(&["--io-paths"]);
    assert_eq!(c.io_paths, vec!["/tmp".to_string()]);
    let c = run_config(&["--io-size", "--io", "--io-read"]);
    assert_eq!(c.io_size_mb, 100);
    assert!(!c.io_enabled);
    assert!(c.io_read);
}

#[test]
fn flag_table() {
    let mut c = Config::defaults();
    c.apply(Flag::IoRandom, None);
    assert!(c.io_random);
    c.apply(Flag::MemoryPercent, Some("25"));
    assert_eq!(c.memory_percent, 25);
    c.apply(Flag::Unknown, Some("25"));
    assert_eq!(c.memory_percent, 25);
}
