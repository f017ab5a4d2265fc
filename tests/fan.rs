use gpu_fan_control::fan::{celcius_to_fahrenheit, diff_func, find_gpu_manufacturer, rgb_temp, GpuVendor, RgbColor};

#[test]
fn fan_speed_follows_nearest_step() {
    assert_eq!(diff_func(0), 10);
    assert_eq!(diff_func(14), 10);
    assert_eq!(diff_func(15), 10);
    assert_eq!(diff_func(16), 20);
    assert_eq!(diff_func(55), 50);
    assert_eq!(diff_func(69), 70);
}

#[test]
fn fan_speed_boost_at_high_temperatures() {
    assert_eq!(diff_func(70), 72);
    assert_eq!(diff_func(73), 74);
    assert_eq!(diff_func(75), 76);
    assert_eq!(diff_func(76), 86);
    assert_eq!(diff_func(79), 83);
    assert_eq!(diff_func(80), 85);
    assert_eq!(diff_func(81), 90);
    assert_eq!(diff_func(84), 96);
    assert_eq!(diff_func(85), 95);
}

#[test]
fn fan_speed_is_capped_at_100() {
    assert_eq!(diff_func(90), 100);
    assert_eq!(diff_func(255), 100);
}

#[test]
fn fahrenheit_conversion() {
    assert_eq!(celcius_to_fahrenheit(0), 32);
    assert_eq!(celcius_to_fahrenheit(37), 98);
    assert_eq!(celcius_to_fahrenheit(100), 212);
    assert_eq!(celcius_to_fahrenheit(123), 253);
    assert_eq!(celcius_to_fahrenheit(124), 255);
    assert_eq!(celcius_to_fahrenheit(255), 255);
}

#[test]
fn default_scale_has_24_colours() {
    let rgb = RgbColor::new();
    assert_eq!(rgb.total_colors(), 24);
    assert_eq!(rgb.colors[0], (0, 255, 175));
    assert_eq!(rgb.colors[23], (255, 0, 0));
    assert_eq!(rgb.get_color_by_index(3, 24), Some((0, 215, 255)));
    assert_eq!(rgb.get_color_by_index(24, 24), None);
}

#[test]
fn temperature_colours_on_default_scale() {
    let rgb = RgbColor::new();
    assert_eq!(rgb_temp(&rgb, 20), (0, 255, 175));
    assert_eq!(rgb_temp(&rgb, 30), (0, 255, 175));
    assert_eq!(rgb_temp(&rgb, 33), (0, 255, 215));
    assert_eq!(rgb_temp(&rgb, 50), (0, 0, 215));
    assert_eq!(rgb_temp(&rgb, 84), (215, 0, 0));
    assert_eq!(rgb_temp(&rgb, 85), (255, 0, 0));
    assert_eq!(rgb_temp(&rgb, 200), (255, 0, 0));
}

#[test]
fn single_colour_scale() {
    let rgb = RgbColor { colors: vec![(1, 2, 3)] };
    assert_eq!(rgb_temp(&rgb, 50), (1, 2, 3));
}

#[test]
fn gpu_vendor_detection() {
    assert_eq!(find_gpu_manufacturer("01:00.0 VGA compatible controller: NVIDIA Corporation"), Some(GpuVendor::Nvidia));
    assert_eq!(find_gpu_manufacturer("\tKernel driver in use: amdgpu\n"), Some(GpuVendor::Amd));
    assert_eq!(find_gpu_manufacturer("NVIDIA and amdgpu"), Some(GpuVendor::Nvidia));
    assert_eq!(find_gpu_manufacturer("Intel"), None);
    assert_eq!(find_gpu_manufacturer(""), None);
}
