use moyu::edge_background::edge_background_sums;

/// The same estimate written out directly, with a sort and floats.
fn direct_background(rgba: &[u8], width: usize, height: usize) -> [f64; 3] {
    let mut samples: Vec<[u8; 3]> = Vec::new();
    let step = ((width * 2 + height * 2) / 1600).max(1);
    let mut add = |x: usize, y: usize| {
        let i = (y * width + x) * 4;
        if rgba.get(i + 3).copied().unwrap_or(0) < 220 {
            return;
        }
        samples.push([rgba[i], rgba[i + 1], rgba[i + 2]]);
    };
    for x in (0..width).step_by(step) {
        add(x, 0);
        add(x, height - 1);
    }
    for y in (0..height).step_by(step) {
        add(0, y);
        add(width - 1, y);
    }
    if samples.is_empty() {
        return [255.0, 255.0, 255.0];
    }
    samples.sort_by_key(|s| s[0] as u16 + s[1] as u16 + s[2] as u16);
    let start = samples.len() * 55 / 100;
    let pool = &samples[start..];
    let pool = if pool.is_empty() { &samples[..] } else { pool };
    let mut sum = [0.0, 0.0, 0.0];
    for s in pool {
        sum[0] += s[0] as f64;
        sum[1] += s[1] as f64;
        sum[2] += s[2] as f64;
    }
    [sum[0] / pool.len() as f64, sum[1] / pool.len() as f64, sum[2] / pool.len() as f64]
}

fn averaged(rgba: &[u8], width: usize, height: usize) -> [f64; 3] {
    let bg = edge_background_sums(rgba, width, height);
    if bg.count == 0 {
        return [255.0, 255.0, 255.0];
    }
    let n = bg.count as f64;
    [bg.red_sum as f64 / n, bg.green_sum as f64 / n, bg.blue_sum as f64 / n]
}

fn pattern(width: usize, height: usize, seed: u32) -> Vec<u8> {
    let mut v = Vec::with_capacity(width * height * 4);
    let mut x = seed;
    for _ in 0..width * height * 4 {
        x = x.wrapping_mul(1103515245).wrapping_add(12345);
        v.push((x >> 16) as u8);
    }
    v
}

#[test]
fn matches_the_direct_estimate_on_varied_images() {
    for (w, h, seed) in [(1, 1, 1), (5, 3, 2), (17, 9, 3), (40, 40, 4), (900, 3, 5), (3, 1300, 6)] {
        let rgba = pattern(w, h, seed);
        assert_eq!(averaged(&rgba, w, h), direct_background(&rgba, w, h), "{w}x{h}");
    }
}

#[test]
fn transparent_border_falls_back_to_white() {
    let rgba = vec![0u8; 4 * 4 * 4];
    let bg = edge_background_sums(&rgba, 4, 4);
    assert_eq!(bg.count, 0);
    assert_eq!(averaged(&rgba, 4, 4), [255.0, 255.0, 255.0]);
}

#[test]
fn uniform_border_averages_to_its_colour() {
    let mut rgba = Vec::new();
    for _ in 0..9 {
        rgba.extend_from_slice(&[200, 100, 50, 255]);
    }
    let bg = edge_background_sums(&rgba, 3, 3);
    // 12 samples (six from the rows, six from the columns), the brightest 45%.
    assert_eq!(bg.count, 12 - 12 * 55 / 100);
    assert_eq!(bg.red_sum, 200 * bg.count as u128);
    assert_eq!(averaged(&rgba, 3, 3), [200.0, 100.0, 50.0]);
}

#[test]
fn empty_image_has_no_samples() {
    let bg = edge_background_sums(&[], 0, 0);
    assert_eq!(bg.count, 0);
}
