use lite_room::domain::{ImageId, PreviewFrame};
use lite_room::error::ApplicationError;
use lite_room::metrics::{percentile_95, MetricsState};
use lite_room::pixels::{pack_rgb, resample_nearest, source_pixels_as_le_bytes, unpack_rgb};
use lite_room::scheduler::{PreviewScheduler, RenderedPreview};
use lite_room::sizing::{plan_render_size, render_target, MAX_RENDER_PIXELS};

fn rendered(width: u32, height: u32) -> RenderedPreview {
    RenderedPreview {
        width,
        height,
        pixels: vec![0x00_11_22_33; (width * height) as usize],
    }
}

fn run_worker_once(scheduler: &mut PreviewScheduler<u32>, elapsed_ms: u64) -> bool {
    let image_id = ImageId::new(1).expect("id");
    match scheduler.take_job() {
        Some(job) => scheduler.finish_render(job.sequence, image_id, Ok(rendered(2, 2)), elapsed_ms),
        None => false,
    }
}

#[test]
fn latest_job_wins_and_old_jobs_cancel() {
    let mut scheduler: PreviewScheduler<u32> = PreviewScheduler::new();
    for exposure in 0..8_u32 {
        scheduler.submit(exposure).expect("submit preview");
    }
    let mut polls = 0;
    let frame = loop {
        if let Some(frame) = scheduler.try_receive_preview() {
            break frame;
        }
        polls += 1;
        assert!(polls < 10, "timed out waiting for preview frame");
        run_worker_once(&mut scheduler, 12);
    };
    assert_eq!(frame.sequence, 8);
    let metrics = scheduler.metrics();
    assert_eq!(metrics.submitted_jobs, 8);
    assert_eq!(metrics.completed_jobs, 1);
    assert!(metrics.canceled_jobs >= 1);
    assert_eq!(metrics.canceled_jobs, 7);
    assert_eq!(metrics.last_render_time_ms, Some(12));
    assert!(scheduler.try_receive_preview().is_none());
}

#[test]
fn burst_taken_early_still_delivers_last() {
    let mut scheduler: PreviewScheduler<u32> = PreviewScheduler::new();
    let image_id = ImageId::new(3).expect("id");
    scheduler.submit(0).expect("submit");
    let first = scheduler.take_job().expect("first job");
    assert_eq!(first.sequence, 1);
    for exposure in 1..5_u32 {
        scheduler.submit(exposure).expect("submit");
    }
    assert!(!scheduler.finish_render(first.sequence, image_id, Ok(rendered(1, 1)), 30));
    assert!(scheduler.try_receive_preview().is_none());
    let job = scheduler.take_job().expect("newest job");
    assert_eq!(job.sequence, 5);
    assert_eq!(job.request, 4);
    assert!(scheduler.finish_render(job.sequence, image_id, Ok(rendered(1, 1)), 30));
    let frame = scheduler.try_receive_preview().expect("frame");
    assert_eq!(frame.sequence, 5);
    assert_eq!(frame.image_id, image_id);
    let metrics = scheduler.metrics();
    assert!(metrics.canceled_jobs >= 4);
    assert_eq!(metrics.completed_jobs, 1);
}

#[test]
fn failed_render_is_counted_canceled() {
    let mut scheduler: PreviewScheduler<u32> = PreviewScheduler::new();
    scheduler.submit(0).expect("submit");
    let job = scheduler.take_job().expect("job");
    let published = scheduler.finish_render(
        job.sequence,
        ImageId::new(1).expect("id"),
        Err(ApplicationError::Decode("corrupt".to_string())),
        5,
    );
    assert!(!published);
    let metrics = scheduler.metrics();
    assert_eq!(metrics.canceled_jobs, 1);
    assert_eq!(metrics.completed_jobs, 0);
    assert_eq!(metrics.last_render_time_ms, None);
}

#[test]
fn polls_deliver_increasing_sequences_and_count_drops() {
    let mut scheduler: PreviewScheduler<u32> = PreviewScheduler::new();
    let mut delivered: Vec<u64> = Vec::new();
    for round in 0..4_u32 {
        scheduler.submit(round).expect("submit");
        assert!(run_worker_once(&mut scheduler, 1));
        if round % 2 == 1 {
            let frame: PreviewFrame = scheduler.try_receive_preview().expect("frame");
            delivered.push(frame.sequence);
        }
    }
    assert_eq!(delivered, vec![2, 4]);
    assert_eq!(scheduler.metrics().dropped_frames, 2);
}

#[test]
fn empty_poll_returns_none_and_keeps_counters() {
    let mut scheduler: PreviewScheduler<u32> = PreviewScheduler::new();
    scheduler.submit(1).expect("submit");
    let before = scheduler.metrics();
    assert!(scheduler.try_receive_preview().is_none());
    assert_eq!(scheduler.metrics(), before);
}

#[test]
fn sizer_caps_large_request_keeping_aspect() {
    let (w, h, n) = render_target(4000, 3000).expect("sized");
    assert_eq!((w, h), (1632, 1224));
    assert!(w * h <= MAX_RENDER_PIXELS);
    assert_eq!(n, 1_997_568);
    let ratio = w as f64 / h as f64;
    assert!((ratio - 4000.0 / 3000.0).abs() < 0.01);
}

#[test]
fn sizer_keeps_small_request_and_rejects_overflow() {
    assert_eq!(render_target(1200, 800).expect("sized"), (1200, 800, 960_000));
    assert!(matches!(
        render_target(usize::MAX, 2),
        Err(ApplicationError::InvalidInput(_))
    ));
    let (w, h, n) = render_target(1, 3_000_000).expect("sized");
    assert_eq!((w, h), (1, 2_449_489));
    assert_eq!(n, 2_000_000);
}

#[test]
fn renderer_rejects_zero_dimensions() {
    assert!(matches!(
        plan_render_size(0, 512),
        Err(ApplicationError::InvalidInput(_))
    ));
    assert!(matches!(
        plan_render_size(512, 0),
        Err(ApplicationError::InvalidInput(_))
    ));
    assert_eq!(plan_render_size(1200, 800).expect("plan"), (1200, 800, 960_000));
}

#[test]
fn percentile_uses_nearest_rank() {
    let window = [30_u64, 10, 100, 20, 90, 40, 80, 50, 70, 60];
    assert_eq!(percentile_95(&window), Some(100));
    assert_eq!(percentile_95(&[]), None);
    assert_eq!(percentile_95(&[7]), Some(7));
    let eleven: Vec<u64> = (1..=11).collect();
    assert_eq!(percentile_95(&eleven), Some(11));
    let twenty: Vec<u64> = (1..=20).collect();
    assert_eq!(percentile_95(&twenty), Some(19));
}

#[test]
fn latency_window_keeps_the_newest_sixty_four() {
    let mut state = MetricsState::new();
    for sample in 1..=70_u64 {
        state.push_render_sample(sample);
    }
    assert_eq!(state.render_samples_ms.len(), 64);
    assert_eq!(state.render_samples_ms[0], 7);
    assert_eq!(state.last_render_time_ms, Some(70));
    let snapshot = state.snapshot();
    assert_eq!(snapshot.p95_render_time_ms, Some(67));
}

#[test]
fn pixels_pack_and_unpack() {
    assert_eq!(pack_rgb(0x12, 0x34, 0x56), 0x00_12_34_56);
    assert_eq!(unpack_rgb(0xFF_AB_CD_EF), [0xAB, 0xCD, 0xEF]);
    assert_eq!(
        source_pixels_as_le_bytes(&[0x01_02_03_04, 0xA0B0C0D0]),
        vec![4, 3, 2, 1, 0xD0, 0xC0, 0xB0, 0xA0]
    );
}

#[test]
fn nearest_neighbour_resample_picks_floor_positions() {
    // 3x2 source, pixels numbered by (r = index, g = 0, b = 0).
    let mut rgb = Vec::new();
    for index in 0..6_u8 {
        rgb.extend_from_slice(&[index, 0, 0]);
    }
    let up = resample_nearest(&rgb, 3, 2, 6, 4);
    assert_eq!(up.len(), 24);
    assert_eq!(up[0], 0x00_00_00_00);
    assert_eq!(up[5], 0x00_02_00_00);
    assert_eq!(up[23], 0x00_05_00_00);
    let down = resample_nearest(&rgb, 3, 2, 2, 1);
    assert_eq!(down, vec![0x00_00_00_00, 0x00_01_00_00]);
}
