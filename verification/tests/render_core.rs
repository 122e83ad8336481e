use mandelbrot::Band;
use mandelbrot::ConfigError;
use mandelbrot::Limit;
use mandelbrot::band_layout;
use mandelbrot::buffer_len;
use mandelbrot::check_config;
use mandelbrot::pixel_shade;
use mandelbrot::rows_per_band;
use mandelbrot::shade_row;

#[test]
fn limit_tiers_resolve_to_their_counts() {
    assert_eq!(Limit::VeryLow.value(), 128);
    assert_eq!(Limit::Low.value(), 256);
    assert_eq!(Limit::Medium.value(), 512);
    assert_eq!(Limit::High.value(), 1024);
}

#[test]
fn valid_config_is_accepted() {
    assert_eq!(check_config(100, 200, 4), Ok(()));
    assert_eq!(check_config(1, 1, 1), Ok(()));
    assert_eq!(check_config(4000, 3000, 255), Ok(()));
}

#[test]
fn zero_width_is_rejected() {
    assert_eq!(check_config(0, 200, 4), Err(ConfigError::ZeroWidth));
    assert_eq!(check_config(0, 0, 0), Err(ConfigError::ZeroWidth));
}

#[test]
fn zero_height_is_rejected() {
    assert_eq!(check_config(100, 0, 4), Err(ConfigError::ZeroHeight));
}

#[test]
fn zero_workers_is_rejected() {
    assert_eq!(check_config(100, 200, 0), Err(ConfigError::ZeroWorkers));
}

#[test]
fn oversized_buffer_is_rejected() {
    assert_eq!(
        check_config(usize::MAX, 2, 1),
        Err(ConfigError::BufferTooLarge)
    );
    assert_eq!(check_config(usize::MAX, 1, 1), Ok(()));
}

#[test]
fn buffer_len_is_width_times_height() {
    assert_eq!(buffer_len(100, 200), 20000);
    assert_eq!(buffer_len(1, 1), 1);
}

#[test]
fn rows_per_band_matches_the_split_rule() {
    assert_eq!(rows_per_band(200, 8), 26);
    assert_eq!(rows_per_band(200, 1), 201);
    assert_eq!(rows_per_band(5, 10), 1);
    assert_eq!(rows_per_band(8, 3), 3);
}

#[test]
fn band_layout_splits_200_rows_among_8_workers() {
    let bands = band_layout(200, 8);
    assert_eq!(bands.len(), 8);
    for (i, band) in bands.iter().enumerate() {
        assert_eq!(band.top, i * 26);
        assert_eq!(band.height, if i == 7 { 18 } else { 26 });
    }
}

#[test]
fn band_layout_with_one_worker_is_one_full_band() {
    let bands = band_layout(200, 1);
    assert_eq!(bands.len(), 1);
    assert_eq!(bands[0], Band { top: 0, height: 200 });
}

#[test]
fn band_layout_with_more_workers_than_rows() {
    let bands = band_layout(5, 10);
    assert_eq!(bands.len(), 5);
    for (i, band) in bands.iter().enumerate() {
        assert_eq!(band.top, i);
        assert_eq!(band.height, 1);
    }
}

#[test]
fn band_layouts_tile_the_image_for_every_worker_count() {
    let height: usize = 200;
    for workers in [1u8, 2, 5, 200] {
        let bands = band_layout(height, workers);
        assert!(!bands.is_empty());
        assert_eq!(bands[0].top, 0);
        for w in bands.windows(2) {
            assert_eq!(w[1].top, w[0].top + w[0].height);
        }
        let last = bands[bands.len() - 1];
        assert_eq!(last.top + last.height, height);
        assert_eq!(bands.iter().map(|b| b.height).sum::<usize>(), height);
    }
}

#[test]
fn unescaped_pixels_are_black() {
    assert_eq!(pixel_shade(1024, None), 0);
    assert_eq!(pixel_shade(128, None), 0);
}

#[test]
fn escaped_pixels_shade_by_remaining_iterations() {
    assert_eq!(pixel_shade(256, Some(1)), 255);
    assert_eq!(pixel_shade(256, Some(255)), 1);
    assert_eq!(pixel_shade(128, Some(0)), 128);
    assert_eq!(pixel_shade(512, Some(500)), 12);
}

#[test]
fn shade_wraps_instead_of_saturating() {
    // with the highest tier, an immediate escape gives 1024, which the
    // byte cast wraps to 0
    assert_eq!(pixel_shade(1024, Some(0)), 0);
    assert_eq!(pixel_shade(1024, Some(1)), 255);
    assert_eq!(pixel_shade(1024, Some(768)), 0);
}

#[test]
fn shade_row_shades_each_result_in_order() {
    let escapes = vec![None, Some(0), Some(1), Some(255), None];
    assert_eq!(shade_row(&escapes, 256), vec![0, 0, 255, 1, 0]);
}

#[test]
fn shade_row_of_nothing_is_empty() {
    let escapes: Vec<Option<usize>> = Vec::new();
    assert_eq!(shade_row(&escapes, 1024), Vec::<u8>::new());
}

#[test]
fn shading_twice_gives_identical_bytes() {
    let escapes: Vec<Option<usize>> = (0..100)
        .map(|i| if i % 3 == 0 { None } else { Some(i % 512) })
        .collect();
    let first = shade_row(&escapes, 512);
    let second = shade_row(&escapes, 512);
    assert_eq!(first, second);
}
