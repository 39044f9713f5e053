use prosodia::safetensors::{normalize_shape, parse_safetensors, style_row_of, TensorDtype, VoiceLoaderError};
use prosodia::voice_loader::{blend_parts, split_chars};

fn build_safetensors_f32(name: &str, shape: &[u32], data: &[f32]) -> Vec<u8> {
    let mut payload = Vec::new();
    for &f in data {
        payload.extend_from_slice(&f.to_le_bytes());
    }
    let shape_json: Vec<String> = shape.iter().map(|d| d.to_string()).collect();
    let header = format!(
        r#"{{"{name}":{{"dtype":"F32","shape":[{}],"data_offsets":[0,{}]}}}}"#,
        shape_json.join(","),
        payload.len()
    );
    let header_bytes = header.into_bytes();
    let mut out = Vec::new();
    out.extend_from_slice(&(header_bytes.len() as u64).to_le_bytes());
    out.extend_from_slice(&header_bytes);
    out.extend_from_slice(&payload);
    out
}

fn with_header(header: &str, payload: &[u8]) -> Vec<u8> {
    let mut out = Vec::new();
    out.extend_from_slice(&(header.len() as u64).to_le_bytes());
    out.extend_from_slice(header.as_bytes());
    out.extend_from_slice(payload);
    out
}

fn message(e: VoiceLoaderError) -> String {
    match e {
        VoiceLoaderError::Safetensors { msg } => msg,
        other => panic!("unexpected error {other:?}"),
    }
}

#[test]
fn parses_f32_safetensors() {
    let blob = build_safetensors_f32("style", &[2, 3], &[1.0, 2.0, 3.0, 4.0, 5.0, 6.0]);
    let tensors = parse_safetensors(&blob).unwrap();
    assert_eq!(tensors.len(), 1);
    assert_eq!(tensors[0].name, "style");
    assert_eq!(tensors[0].shape, vec![2, 3]);
    assert_eq!(tensors[0].dtype, TensorDtype::F32);
    let data: Vec<f32> = blob[tensors[0].start..tensors[0].end]
        .chunks_exact(4)
        .map(|c| f32::from_le_bytes([c[0], c[1], c[2], c[3]]))
        .collect();
    assert_eq!(data, vec![1.0, 2.0, 3.0, 4.0, 5.0, 6.0]);
}

#[test]
fn headers_skip_metadata_and_incomplete_entries() {
    let header = r#"{"__metadata__":{"format":"pt"},"a":{"dtype":"F16","shape":[1,2,-3],"data_offsets":[0,4]},"b":{"dtype":"F32"},"c":{"dtype":"F32","shape":[1],"data_offsets":[1]}}"#;
    let blob = with_header(header, &[0, 0, 0, 0]);
    let tensors = parse_safetensors(&blob).unwrap();
    assert_eq!(tensors.len(), 1);
    assert_eq!(tensors[0].name, "a");
    assert_eq!(tensors[0].dtype, TensorDtype::F16);
    assert_eq!(tensors[0].shape, vec![1, 2]);
    assert_eq!(tensors[0].end - tensors[0].start, 4);
}

#[test]
fn malformed_packs_are_reported() {
    assert_eq!(message(parse_safetensors(&[1, 2, 3]).err().unwrap()), "file too small");
    assert_eq!(message(parse_safetensors(&with_header("{}", &[])[..9]).err().unwrap()), "invalid header length");
    assert!(message(parse_safetensors(&with_header("{oops", &[])).err().unwrap()).starts_with("failed to parse JSON header: "));
    assert_eq!(message(parse_safetensors(&with_header("[1]", &[])).err().unwrap()), "header is not a JSON object");
    let far = r#"{"a":{"dtype":"F32","shape":[1],"data_offsets":[0,8]}}"#;
    assert_eq!(message(parse_safetensors(&with_header(far, &[0, 0])).err().unwrap()), "data offsets out of bounds");
    let odd = r#"{"a":{"dtype":"I8","shape":[1],"data_offsets":[0,1]}}"#;
    assert_eq!(message(parse_safetensors(&with_header(odd, &[0])).err().unwrap()), "unsupported dtype: I8");
}

#[test]
fn normalize_squeezes_singleton_middle_axis() {
    assert_eq!(normalize_shape(vec![2, 1, 2]).unwrap(), vec![2, 2]);
    assert_eq!(normalize_shape(vec![3, 4]).unwrap(), vec![3, 4]);
    assert!(matches!(normalize_shape(vec![2, 2, 2]), Err(VoiceLoaderError::NotTwoDimensional { shape }) if shape == vec![2, 2, 2]));
}

#[test]
fn slice_row_clamps_index() {
    assert_eq!(style_row_of(&vec![3, 2], 100).unwrap(), (2, 2));
    assert_eq!(style_row_of(&vec![3, 2], 0).unwrap(), (0, 2));
    assert_eq!(style_row_of(&vec![3, 2], 2).unwrap(), (1, 2));
    assert_eq!(style_row_of(&vec![0, 2], 5).unwrap(), (0, 2));
    assert!(style_row_of(&vec![3], 1).is_err());
}

#[test]
fn parse_blend_string_parses_weights_and_defaults() {
    let parse = |s: &str| -> Vec<(String, f64)> {
        blend_parts(s)
            .into_iter()
            .map(|(v, w)| (v, w.and_then(|t| t.parse::<f64>().ok()).unwrap_or(1.0)))
            .collect()
    };
    assert_eq!(parse("a:0.6, b:0.4"), vec![("a".to_string(), 0.6), ("b".to_string(), 0.4)]);
    assert_eq!(parse("solo"), vec![("solo".to_string(), 1.0)]);
    assert_eq!(
        blend_parts(" x : 2 : 3 ,, :5, y:"),
        vec![("x".to_string(), Some("2".to_string())), ("y".to_string(), Some(String::new()))]
    );
}

#[test]
fn splitting_keeps_empty_pieces() {
    let v: Vec<char> = "a,,b,".chars().collect();
    let parts: Vec<String> = split_chars(&v, ',').into_iter().map(|p| p.into_iter().collect()).collect();
    assert_eq!(parts, vec!["a", "", "b", ""]);
}
