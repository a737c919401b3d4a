use pulsemon::collectors::gpu::amd::AmdBackend;
use pulsemon::collectors::gpu::apple::{active_output_readable, active_percentage_text, extract_gpu_name};
use pulsemon::collectors::gpu::intel::IntelBackend;
use pulsemon::text::float_text_ok;

#[test]
fn apple_model_name() {
    let out = "+-o AGXAcceleratorG13X  <class AGXAcceleratorG13X>\n    {\n      \"model\" = \"Apple M1 Pro\"\n    }\n";
    assert_eq!(extract_gpu_name(out), Some("Apple M1 Pro".to_string()));
    let out2 = "  | \"model\" = <\"Apple M2\">\n";
    assert_eq!(extract_gpu_name(out2), Some("Apple M2".to_string()));
    assert_eq!(extract_gpu_name("  \"model\" = \"\"\n  \"model\" = \"Second\"\n"), Some("Second".to_string()));
    assert_eq!(extract_gpu_name("\"model\" without equals\n"), None);
    assert_eq!(extract_gpu_name("nothing here"), None);
}

#[test]
fn rocm_cards() {
    let out = "{\n  \"card0\": {\n    \"GPU use (%)\": \"42\",\n    \"Temperature (Sensor edge) (C)\": \"55.0\",\n    \"Average Graphics Package Power (W)\": \"120.5\"\n  },\n  \"card1\": {\n    \"GPU memory use (%)\": \"7\",\n    \"GPU use (%)\": \"n/a\"\n  }\n}\n";
    let cards = AmdBackend.parse_output(out);
    assert_eq!(cards.len(), 2);
    assert_eq!(cards[0].name, "AMD GPU 0");
    assert_eq!(cards[0].utilization.as_deref(), Some("42"));
    assert_eq!(cards[0].temperature.as_deref(), Some("55.0"));
    assert_eq!(cards[0].power_usage, None);
    assert_eq!(cards[1].name, "AMD GPU 1");
    assert_eq!(cards[1].utilization.as_deref(), Some("7"));
    assert!(AmdBackend.parse_output("").is_empty());
}

#[test]
fn intel_busy_values() {
    let out = "{\n  \"engines\": {\n    \"Render/3D/0\": {\n      \"busy\": 12.5,\n    },\n    \"Video/0\": {\n      \"busy\": 40.0,\n    },\n    \"Blitter/0\": { \"busy\": nope }\n  }\n}\n";
    let s = IntelBackend.parse_output(out).expect("a sample");
    assert_eq!(s.name, "Intel GPU");
    assert_eq!(s.busy, vec!["12.5".to_string(), "40.0".to_string()]);
    assert!(IntelBackend.parse_output("{}").is_none());
}

#[test]
fn float_grammar_agrees_with_std() {
    let samples = [
        "0", "1", "42", "3.14", "-3.14", "+2", "2.5E10", "2.5e-10", "5.", ".5", ".", "", "+", "-",
        "e5", "1e", "1e+", "1e+5", "1E-0", "inf", "-inf", "+infinity", "Infinity", "NaN", "nan", "INF",
        "infin", "1.2.3", "1e5e5", " 1", "1 ", "0x10", "1_000", "١", "1.e3", ".e3", "12a", "nan1",
        "-.5", "+.", "00", "007.700", "1e0001", "--1", "+-1", "e", "E", "Inf", "iNfInItY",
    ];
    for s in samples {
        let chars: Vec<char> = s.chars().collect();
        assert_eq!(float_text_ok(&chars), s.parse::<f32>().is_ok(), "{:?}", s);
    }
}

/// The reading as plain Rust computes it on outputs where it does not panic.
fn active_reading(output: &str) -> Option<f32> {
    for line in output.lines() {
        if line.contains("GPU Active") || line.contains("GPU active") {
            if let Some(pct_pos) = line.find('%') {
                let before = &line[..pct_pos];
                let num_start = before.rfind(|c: char| !c.is_ascii_digit() && c != '.').unwrap_or(0) + 1;
                if let Ok(val) = before[num_start..].parse::<f32>() {
                    return Some(val);
                }
            }
        }
    }
    None
}

#[test]
fn powermetrics_gpu_active() {
    let out = "*** Sampled system activity ***\n\n**** GPU usage ****\n\nGPU HW active frequency: 389 MHz\nGPU HW active residency:  12.34% (389 MHz: 12%)\nGPU idle residency:  87.66%\nGPU Active: 42%\n";
    assert!(active_output_readable(out));
    assert_eq!(active_percentage_text(out).as_deref(), Some("42"));
    assert_eq!(active_reading(out), Some(42.0));

    let lower = "GPU active residency: 7.5%\n";
    assert_eq!(active_percentage_text(lower).as_deref(), Some("7.5"));

    // A line whose text before '%' is no number is passed over.
    let skipped = "GPU Active: %\nGPU Active: 1.2.3%\nGPU Active: 9%\n";
    assert_eq!(active_percentage_text(skipped).as_deref(), Some("9"));
    assert_eq!(active_reading(skipped), Some(9.0));

    // With no character outside a number, the first character is skipped.
    assert_eq!(active_percentage_text("42% GPU Active\n").as_deref(), Some("2"));
    assert_eq!(active_reading("42% GPU Active\n"), Some(2.0));

    assert_eq!(active_percentage_text("no gpu here\n"), None);
    assert_eq!(active_percentage_text(""), None);
}

#[test]
fn powermetrics_unreadable_lines() {
    // The percentage would start inside a character, or before the start.
    assert!(!active_output_readable("%GPU Active\n"));
    assert!(!active_output_readable("GPU Active \u{e9}%\n"));
    // A reading found first means a later such line is never reached.
    assert!(active_output_readable("GPU Active: 3%\n%GPU Active\n"));
    assert!(active_output_readable("nothing\n"));
}
