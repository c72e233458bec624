use liquidglass0::base64::base64_encode;
use liquidglass0::capture::{capture_file_name, capture_kind, capture_reply, inline_capture, CaptureKind};
use liquidglass0::cli::{run, Action, Commands, ConfigCmd, ShaderCmd};
use liquidglass0::frame::{dispatch_grid, light_slots, LightSlot};
use liquidglass0::compose::{compile_shader, register_module, reload_module, ShaderComposer};
use liquidglass0::config_file::{config_json, default_config_doc, parse_config, DEFAULT_CONFIG};
use liquidglass0::interaction::{DeformationState, PressState};
use liquidglass0::mcp::{read_shader_plan, ReadShaderRequest, ShaderReadPlan};
use liquidglass0::param_edit::{
    plan_batch_edit, plan_batch_update, plan_param_edit, plan_update, ParamEdit, ParamError, TableLookup,
};
use liquidglass0::param_key::{key_is_sliceable, parse_key};
use liquidglass0::readback::{checkerboard_pixels, padded_bytes_per_row, rgba8_frame_png, strip_row_padding};
use liquidglass0::shaders::{
    composed_source_file, list_shader_names, reload_slot, shader_dir, shader_listing, shader_path,
    EmbeddedLoader, ShaderSlot,
};

// ── readback layout ──

#[test]
fn padded_rows_round_up_to_256() {
    assert_eq!(padded_bytes_per_row(100, 4), 512);
    assert_eq!(padded_bytes_per_row(64, 4), 256);
    assert_eq!(padded_bytes_per_row(65, 4), 512);
    assert_eq!(padded_bytes_per_row(0, 4), 0);
    assert_eq!(padded_bytes_per_row(512, 8), 4096);
}

#[test]
fn strip_padding_keeps_row_prefixes() {
    let mapped: Vec<u8> = (0u8..12).collect();
    assert_eq!(strip_row_padding(&mapped, 2, 4, 3), vec![0, 1, 4, 5, 8, 9]);
}

#[test]
fn strip_padding_without_padding_is_identity() {
    let mapped: Vec<u8> = (0u8..12).collect();
    assert_eq!(strip_row_padding(&mapped, 4, 4, 3), mapped);
    assert_eq!(strip_row_padding(&mapped, 4, 4, 2), mapped[..8].to_vec());
}

#[test]
fn frame_png_is_a_png_of_the_pixels() {
    let red = vec![255u8, 0, 0, 255, 0, 0, 0, 0];
    let blue = vec![0u8, 0, 255, 255, 0, 0, 0, 0];
    let a = rgba8_frame_png(&red, 1, 1, 8).unwrap();
    let b = rgba8_frame_png(&blue, 1, 1, 8).unwrap();
    assert_eq!(&a[..8], &[0x89, b'P', b'N', b'G', 0x0d, 0x0a, 0x1a, 0x0a]);
    assert_ne!(a, b);
    assert_ne!(a, red);
    let decoded = image::load_from_memory(&a).unwrap().to_rgba8();
    assert_eq!(decoded.into_raw(), vec![255, 0, 0, 255]);
}

#[test]
fn frame_png_decodes_to_the_unpadded_texels() {
    let (w, h) = (3u32, 2u32);
    let padded = padded_bytes_per_row(w, 4);
    let mut mapped = vec![0xAAu8; (padded * h) as usize];
    let mut expected = Vec::new();
    for y in 0..h {
        for x in 0..w {
            let texel = [x as u8 * 40, y as u8 * 90, 7, 255];
            let at = (y * padded + x * 4) as usize;
            mapped[at..at + 4].copy_from_slice(&texel);
            expected.extend_from_slice(&texel);
        }
    }
    let png = rgba8_frame_png(&mapped, w, h, padded).unwrap();
    let decoded = image::load_from_memory(&png).unwrap().to_rgba8();
    assert_eq!((decoded.width(), decoded.height()), (w, h));
    assert_eq!(decoded.into_raw(), expected);
}

#[test]
fn checkerboard_small_is_blue() {
    assert_eq!(checkerboard_pixels(2, 1), vec![70, 130, 200, 255, 70, 130, 200, 255]);
    assert_eq!(checkerboard_pixels(0, 5), Vec::<u8>::new());
}

#[test]
fn checkerboard_tiles_alternate_every_50_pixels() {
    let px = checkerboard_pixels(51, 51);
    let at = |x: usize, y: usize| px[(y * 51 + x) * 4..(y * 51 + x) * 4 + 4].to_vec();
    assert_eq!(at(0, 0), vec![70, 130, 200, 255]);
    assert_eq!(at(49, 49), vec![70, 130, 200, 255]);
    assert_eq!(at(50, 0), vec![180, 120, 80, 255]);
    assert_eq!(at(0, 50), vec![180, 120, 80, 255]);
    assert_eq!(at(50, 50), vec![70, 130, 200, 255]);
}

// ── base64 ──

#[test]
fn base64_known_vectors() {
    assert_eq!(base64_encode(b""), "");
    assert_eq!(base64_encode(b"f"), "Zg==");
    assert_eq!(base64_encode(b"fo"), "Zm8=");
    assert_eq!(base64_encode(b"foo"), "Zm9v");
    assert_eq!(base64_encode(b"foob"), "Zm9vYg==");
    assert_eq!(base64_encode(b"fooba"), "Zm9vYmE=");
    assert_eq!(base64_encode(b"foobar"), "Zm9vYmFy");
    assert_eq!(base64_encode(&[0xff, 0xfe]), "//4=");
    assert_eq!(base64_encode(&[0xfb, 0xff]), "+/8=");
}

fn decode_base64(text: &str) -> Vec<u8> {
    let value = |c: u8| -> u32 {
        match c {
            b'A'..=b'Z' => (c - b'A') as u32,
            b'a'..=b'z' => (c - b'a') as u32 + 26,
            b'0'..=b'9' => (c - b'0') as u32 + 52,
            b'+' => 62,
            b'/' => 63,
            _ => 0,
        }
    };
    let mut out = Vec::new();
    for g in text.as_bytes().chunks(4) {
        let v = g.iter().fold(0u32, |acc, &c| acc * 64 + value(c));
        out.push((v >> 16) as u8);
        if g[2] != b'=' {
            out.push((v >> 8) as u8);
        }
        if g[3] != b'=' {
            out.push(v as u8);
        }
    }
    out
}

#[test]
fn base64_decodes_back() {
    for data in [&b""[..], b"f", b"fo", b"foo", b"foob", b"fooba", b"foobar", &[0u8, 255, 128, 7, 63]] {
        assert_eq!(decode_base64(&base64_encode(data)), data);
    }
}

#[test]
fn base64_length_is_four_per_started_group() {
    for n in 0..20usize {
        let data = vec![7u8; n];
        assert_eq!(base64_encode(&data).len(), 4 * ((n + 2) / 3));
    }
}

#[test]
fn base64_concatenates_on_group_boundaries() {
    let a = b"abc";
    let b = b"xy";
    let ab: Vec<u8> = a.iter().chain(b.iter()).copied().collect();
    assert_eq!(base64_encode(&ab), base64_encode(a) + &base64_encode(b));
}

#[test]
fn base64_alphabet_and_distinct_inputs() {
    let data: Vec<u8> = (0u8..=255).collect();
    let text = base64_encode(&data);
    assert!(text.chars().all(|c| c.is_ascii_alphanumeric() || c == '+' || c == '/' || c == '='));
    assert_ne!(base64_encode(&[0]), base64_encode(&[0, 0]));
    assert_ne!(base64_encode(&[1, 2, 3]), base64_encode(&[1, 2, 4]));
}

// ── parameter keys ──

#[test]
fn parse_scalar_keys() {
    assert_eq!(parse_key("optical.refractive_index"), ("optical", "refractive_index", None));
    assert_eq!(parse_key("a.b.c"), ("a.b", "c", None));
    assert_eq!(parse_key("plain"), ("", "plain", None));
    assert_eq!(parse_key(".x"), ("", "x", None));
}

#[test]
fn parse_element_keys() {
    assert_eq!(parse_key("optical.fresnel_color[0]"), ("optical", "fresnel_color", Some(0)));
    assert_eq!(parse_key("panel.half_size[1]"), ("panel", "half_size", Some(1)));
    assert_eq!(parse_key("arr[12]"), ("", "arr", Some(12)));
    assert_eq!(parse_key("t.f[+7]"), ("t", "f", Some(7)));
}

#[test]
fn parse_element_key_with_bad_index_reads_zero() {
    assert_eq!(parse_key("t.f[abc]"), ("t", "f", Some(0)));
    assert_eq!(parse_key("t.f[]"), ("t", "f", Some(0)));
    assert_eq!(parse_key("t.f[-1]"), ("t", "f", Some(0)));
    assert_eq!(parse_key("t.f[999999999999999999999999999]"), ("t", "f", Some(0)));
    assert_eq!(parse_key("t.f[3x"), ("t", "f", Some(3)));
}

#[test]
fn sliceable_keys() {
    assert!(key_is_sliceable("optical.fresnel_color[0]"));
    assert!(key_is_sliceable("no_bracket.é"));
    assert!(!key_is_sliceable("t.f["));
    assert!(!key_is_sliceable("t.f[1é"));
}

// ── parameter edits ──

fn lookup(found: bool, table_like: bool, array_len: Option<usize>) -> TableLookup {
    TableLookup { found, table_like, array_len }
}

#[test]
fn single_edit_outcomes() {
    let ok = lookup(true, true, Some(3));
    assert_eq!(plan_param_edit("t", "f", None, true, &ok).unwrap(), ParamEdit::SetScalar);
    assert_eq!(plan_param_edit("t", "f", Some(2), true, &ok).unwrap(), ParamEdit::ReplaceElement(2));
    let e = plan_param_edit("optical", "f", None, true, &lookup(false, false, None)).unwrap_err();
    assert!(matches!(e, ParamError::TableNotFound(_)));
    assert_eq!(e.message(), "未找到 table: optical");
    let e = plan_param_edit("t", "fresnel_color", Some(0), true, &lookup(true, true, None)).unwrap_err();
    assert_eq!(e.message(), "fresnel_color 不是数组");
    let e = plan_param_edit("t", "f", None, false, &ok).unwrap_err();
    assert_eq!(e.message(), "value 需为数字");
    let e = plan_param_edit("t", "f", Some(9), false, &ok).unwrap_err();
    assert_eq!(e.message(), "value 需为数字");
    let e = plan_param_edit("t", "fresnel_color", Some(5), true, &ok).unwrap_err();
    assert!(matches!(e, ParamError::IndexOutOfRange(_)));
    assert_eq!(e.message(), "fresnel_color 的索引超出数组长度");
    let e = plan_param_edit("lights", "f", None, true, &lookup(true, false, None)).unwrap_err();
    assert_eq!(e.message(), "lights 不是 table");
}

const SAMPLE_CONFIG: &str = "[optical]\nrefractive_index = 1.3\nfresnel_color = [0.9, 0.95, 1.0]\n\n[[lights]]\nintensity = 0.9\n";

#[test]
fn updates_planned_against_the_document() {
    let doc = parse_config(SAMPLE_CONFIG).unwrap();
    assert_eq!(
        plan_update(&doc, "optical.refractive_index", true).unwrap(),
        ("optical", "refractive_index", ParamEdit::SetScalar)
    );
    assert_eq!(
        plan_update(&doc, "optical.fresnel_color[2]", true).unwrap(),
        ("optical", "fresnel_color", ParamEdit::ReplaceElement(2))
    );
    let e = plan_update(&doc, "optical.fresnel_color[5]", true).unwrap_err();
    assert_eq!(e.message(), "fresnel_color 的索引超出数组长度");
    let e = plan_update(&doc, "optical.refractive_index[0]", true).unwrap_err();
    assert_eq!(e.message(), "refractive_index 不是数组");
    let e = plan_update(&doc, "panel.corner_radius", true).unwrap_err();
    assert_eq!(e.message(), "未找到 table: panel");
    let e = plan_update(&doc, "lights.intensity", true).unwrap_err();
    assert_eq!(e.message(), "lights 不是 table");
    let e = plan_update(&doc, "optical.refractive_index", false).unwrap_err();
    assert_eq!(e.message(), "value 需为数字");
    let e = plan_update(&doc, "optical.fresnel_color[", true).unwrap_err();
    assert!(matches!(e, ParamError::InvalidKey(_)));
    assert_eq!(e.message(), "无效的参数 key: optical.fresnel_color[");
}

#[test]
fn batch_entries_planned_against_the_document() {
    let doc = parse_config(SAMPLE_CONFIG).unwrap();
    assert_eq!(
        plan_batch_update(&doc, "optical.fresnel_color[0]").unwrap(),
        Some(("optical", "fresnel_color", ParamEdit::ReplaceElement(0)))
    );
    assert_eq!(plan_batch_update(&doc, "panel.corner_radius").unwrap(), None);
    assert_eq!(plan_batch_update(&doc, "optical.fresnel_color[3]").unwrap(), None);
    assert_eq!(plan_batch_update(&doc, "lights.intensity").unwrap(), None);
    assert!(plan_batch_update(&doc, "x[").is_err());
}

#[test]
fn batch_edit_outcomes() {
    assert_eq!(plan_batch_edit(None, &lookup(false, false, None)), None);
    assert_eq!(plan_batch_edit(Some(0), &lookup(true, true, None)), None);
    assert_eq!(plan_batch_edit(Some(1), &lookup(true, true, Some(2))), Some(ParamEdit::ReplaceElement(1)));
    assert_eq!(plan_batch_edit(None, &lookup(true, true, None)), Some(ParamEdit::SetScalar));
    assert_eq!(ParamError::KeyValueNotANumber("k".to_string()).message(), "k 的值需为数字");
}

#[test]
fn batch_entries_apply_like_single_updates() {
    let cases = [
        (None, lookup(true, true, None)),
        (Some(1), lookup(true, true, Some(3))),
        (Some(1), lookup(true, true, None)),
        (None, lookup(false, false, None)),
        (Some(0), lookup(false, false, None)),
        (Some(3), lookup(true, true, Some(3))),
        (None, lookup(true, false, None)),
    ];
    for (index, l) in cases {
        let single = plan_param_edit("t", "f", index, true, &l).ok();
        assert_eq!(plan_batch_edit(index, &l), single);
    }
}

// ── shaders ──

#[test]
fn shader_directories_and_paths() {
    assert_eq!(shader_dir("refract"), "compute");
    assert_eq!(shader_dir("composite"), "fragment");
    assert_eq!(shader_dir("sdf"), "common");
    assert_eq!(shader_dir("nope"), "");
    assert_eq!(shader_path("blur_vertical"), "shaders/compute/blur_vertical.wgsl");
    assert_eq!(shader_path("glass_material"), "shaders/common/glass_material.wgsl");
    assert_eq!(shader_path("nope"), "shaders/nope.wgsl");
    assert_eq!(shader_path("/abs/x"), "/abs/x.wgsl");
}

#[test]
fn shader_listing_in_order() {
    let names = list_shader_names();
    assert_eq!(
        names,
        vec!["blur_horizontal", "blur_vertical", "refract", "composite", "fullscreen_triangle", "sdf", "glass_material"]
    );
    assert_eq!(shader_listing(), names.join("\n"));
    for n in &names {
        assert_ne!(shader_dir(n), "");
    }
}

#[test]
fn loaders_and_reload_slots() {
    let l = EmbeddedLoader;
    assert_eq!(l.source_file("composite"), Some("fragment/composite.wgsl"));
    assert_eq!(l.source_file("fullscreen_triangle"), Some("common/fullscreen_triangle.wgsl"));
    assert_eq!(l.source_file("refract"), Some("compute/refract.wgsl"));
    assert_eq!(l.source_file("sdf"), None);
    assert_eq!(composed_source_file("blur_horizontal"), Some("compute/blur_horizontal.wgsl"));
    assert_eq!(composed_source_file("refract"), Some("compute/refract.wgsl"));
    assert_eq!(composed_source_file("fullscreen_triangle"), Some("common/fullscreen_triangle.wgsl"));
    assert_eq!(composed_source_file("glass_material"), None);
    for name in ["blur_horizontal", "blur_vertical", "refract", "fullscreen_triangle", "composite"] {
        let file = composed_source_file(name).unwrap();
        assert_eq!(format!("shaders/{file}"), shader_path(name));
        assert_eq!(l.source_file(name), Some(file));
    }
    assert_eq!(reload_slot("refract").unwrap(), ShaderSlot::Refract);
    assert_eq!(reload_slot("fullscreen_triangle").unwrap(), ShaderSlot::FullscreenTriangle);
    assert_eq!(reload_slot("sdf").unwrap_err(), "未知着色器: sdf");
}

// ── composing shaders ──

const SDF_MODULE: &str = "#define_import_path sdf\n\nfn one() -> f32 {\n    return 1.0;\n}\n";
const USES_SDF: &str = "#import sdf\n\n@compute @workgroup_size(1)\nfn main() {\n    let x = sdf::one();\n}\n";

#[test]
fn shared_modules_compose_into_shaders() {
    for mut c in [ShaderComposer::non_validating(), ShaderComposer::validating()] {
        assert!(c.can_register());
        register_module(&mut c, "sdf", SDF_MODULE).unwrap();
        assert!(compile_shader(&mut c, "refract", USES_SDF).is_ok());
    }
}

#[test]
fn compose_errors_name_the_shader() {
    let mut c = ShaderComposer::non_validating();
    let e = register_module(&mut c, "sdf", "fn one() -> f32 { return 1.0; }\n").unwrap_err();
    assert!(e.starts_with("注册公共模块 sdf 失败: "), "{e}");
    let e = compile_shader(&mut c, "refract", USES_SDF).unwrap_err();
    assert!(e.starts_with("编译着色器 refract 失败: "), "{e}");
    assert!(e.len() > "编译着色器 refract 失败: ".len());
}

#[test]
fn reload_reports_compile_errors_before_unknown_names() {
    let mut c = ShaderComposer::validating();
    register_module(&mut c, "sdf", SDF_MODULE).unwrap();
    let e = reload_module(&mut c, "nope", "fn broken( {").unwrap_err();
    assert!(e.starts_with("编译着色器 nope 失败: "), "{e}");
    let e = reload_module(&mut c, "nope", USES_SDF).unwrap_err();
    assert_eq!(e, "未知着色器: nope");
    let (_, slot) = reload_module(&mut c, "refract", USES_SDF).unwrap();
    assert_eq!(slot, ShaderSlot::Refract);
}

// ── capture ──

#[test]
fn capture_kinds() {
    assert_eq!(capture_kind("composite").unwrap(), CaptureKind::Composite);
    assert_eq!(capture_kind("displacement").unwrap(), CaptureKind::Displacement);
    assert_eq!(capture_kind("h_blur").unwrap(), CaptureKind::HBlur);
    assert_eq!(capture_kind("v_blur").unwrap(), CaptureKind::VBlur);
    assert_eq!(capture_kind("depth").unwrap_err(), "未知的 capture kind: depth");
}

#[test]
fn capture_answers() {
    let (b64, mime) = inline_capture(b"foo");
    assert_eq!(b64, "Zm9v");
    assert_eq!(mime, "image/png;base64");
    assert_eq!(capture_reply("/tmp/x.png", "image/png"), "/tmp/x.png");
    assert_eq!(capture_reply("Zm9v", "image/png;base64"), "data:image/png;base64,Zm9v");
    assert_eq!(capture_file_name("composite", 1751328000), "lg0-composite-1751328000.png");
    assert_eq!(capture_file_name("h_blur", 0), "lg0-h_blur-0.png");
}

// ── interaction ──

#[test]
fn press_release_settle_cycle() {
    let mut s = PressState::new();
    assert!(!s.is_pressed);
    assert_eq!(s.deformation_state, DeformationState::Idle);
    s.press();
    assert!(s.targets_pressed_depth());
    assert_eq!(s.deformation_state, DeformationState::Pressed);
    assert!(!s.settle(true));
    s.release();
    assert!(!s.targets_pressed_depth());
    assert_eq!(s.deformation_state, DeformationState::Releasing);
    assert!(!s.settle(false));
    assert_eq!(s.deformation_state, DeformationState::Releasing);
    assert!(s.settle(true));
    assert_eq!(s.deformation_state, DeformationState::Idle);
}

// ── command line ──

#[test]
fn run_dispatches_commands() {
    assert!(matches!(run(Commands::Config { cmd: ConfigCmd::Get }), Ok(Action::ConfigGet)));
    let set = Commands::Config {
        cmd: ConfigCmd::Assign { key: Some("a.b".into()), value: Some("1".into()), batch: false },
    };
    match run(set) {
        Ok(Action::ConfigSet { key, value }) => {
            assert_eq!(key, "a.b");
            assert_eq!(value, "1");
        }
        _ => panic!("expected ConfigSet"),
    }
    let batch = Commands::Config { cmd: ConfigCmd::Assign { key: None, value: None, batch: true } };
    assert!(matches!(run(batch), Ok(Action::ConfigSetBatch)));
    let missing = Commands::Config { cmd: ConfigCmd::Assign { key: Some("a".into()), value: None, batch: false } };
    assert_eq!(run(missing).err().unwrap(), "需要 <KEY> <VALUE> 或 --batch");
    match run(Commands::Shader { cmd: ShaderCmd::Flush { name: "sdf".into() } }) {
        Ok(Action::ShaderFlush { name }) => assert_eq!(name, "sdf"),
        _ => panic!("expected ShaderFlush"),
    }
}

// ── config file ──

#[test]
fn config_as_json() {
    let json = config_json("[panel]\ncorner_radius = 28.0\n");
    let v: serde_json::Value = serde_json::from_str(&json).unwrap();
    assert_eq!(v["panel"]["corner_radius"].as_f64(), Some(28.0));
    assert_eq!(config_json("not [ toml"), "{}");
}

#[test]
fn parse_config_reports_errors() {
    assert!(parse_config("[a]\nb = 1\n").is_ok());
    assert_eq!(parse_config("[a]\nb = 1\n").unwrap().to_string(), "[a]\nb = 1\n");
    let e = parse_config("[a\n").err().unwrap();
    assert!(e.starts_with("解析 config.toml 失败: "));
    assert!(e.len() > "解析 config.toml 失败: ".len());
}

#[test]
fn default_config_round_trips() {
    let doc = default_config_doc();
    assert_eq!(doc.to_string(), DEFAULT_CONFIG);
    assert!(doc.get("panel").is_some());
    assert_eq!(doc["lights"].as_array_of_tables().unwrap().len(), 3);
}

#[test]
fn empty_document_writes_nothing() {
    assert_eq!(toml_edit::DocumentMut::new().to_string(), "");
}

// ── service requests ──

#[test]
fn read_shader_plans() {
    match read_shader_plan(&ReadShaderRequest { name: Some("sdf".into()) }) {
        ShaderReadPlan::ReadFile { name, path } => {
            assert_eq!(name, "sdf");
            assert_eq!(path, "shaders/common/sdf.wgsl");
        }
        _ => panic!("expected a file"),
    }
    match read_shader_plan(&ReadShaderRequest { name: None }) {
        ShaderReadPlan::Listing { text } => assert_eq!(text.lines().count(), 7),
        _ => panic!("expected the listing"),
    }
}

// ── frame layout ──

#[test]
fn dispatch_covers_the_frame() {
    let g = dispatch_grid((512, 300), (16, 16), 256, 256);
    assert_eq!(g.refract, (32, 19));
    assert_eq!(g.blur_horizontal, (2, 300));
    assert_eq!(g.blur_vertical, (512, 2));
    let g = dispatch_grid((0, 1), (16, 16), 256, 256);
    assert_eq!(g.refract, (0, 1));
    assert_eq!(g.blur_vertical, (0, 1));
}

#[test]
fn light_slots_prefer_configured_lights() {
    assert_slots(light_slots(0), [None, None, None]);
    assert_slots(light_slots(1), [Some(0), None, None]);
    assert_slots(light_slots(5), [Some(0), Some(1), Some(2)]);
}

fn assert_slots(slots: Vec<LightSlot>, expected: [Option<usize>; 3]) {
    assert_eq!(slots.len(), 3);
    for (i, (slot, want)) in slots.into_iter().zip(expected).enumerate() {
        match want {
            Some(j) => assert_eq!(slot, LightSlot::Configured(j)),
            None => assert_eq!(slot, LightSlot::Fallback(i)),
        }
    }
}
