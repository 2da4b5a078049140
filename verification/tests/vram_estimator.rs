use llm_gateway::services::vram_estimator::{
    next_head, HeadStep, estimate_memory, estimate_with_shards, fmt_memory, infer_split_count_from_path, kv_cache_mb,
    read_model_params, read_string, read_u16, read_u32, read_u32_of_type, read_u64,
    read_u64_of_type, read_u8, skip_value, split_count_of_capture, ByteSource, InvalidFormat,
    KvQuant, ModelParams,
};

fn text(s: &str) -> Vec<u8> {
    let mut out = (s.len() as u64).to_le_bytes().to_vec();
    out.extend_from_slice(s.as_bytes());
    out
}

fn entry(key: &str, typ: u32, value: &[u8]) -> Vec<u8> {
    let mut out = text(key);
    out.extend_from_slice(&typ.to_le_bytes());
    out.extend_from_slice(value);
    out
}

/// The first four bytes of a weight file: the magic number, lowest byte
/// first.
const MAGIC_BYTES: [u8; 4] = [0x46, 0x55, 0x47, 0x47];

fn start(version: u32) -> Vec<u8> {
    let mut out = MAGIC_BYTES.to_vec();
    out.extend_from_slice(&version.to_le_bytes());
    out
}

fn header_with_version(version: u32, count: u64, entries: &[Vec<u8>]) -> Vec<u8> {
    let mut out = MAGIC_BYTES.to_vec();
    out.extend_from_slice(&version.to_le_bytes());
    if version >= 1 {
        out.extend_from_slice(&7u64.to_le_bytes());
    }
    out.extend_from_slice(&count.to_le_bytes());
    for e in entries {
        out.extend_from_slice(e);
    }
    out
}

fn header(entries: &[Vec<u8>]) -> Vec<u8> {
    header_with_version(3, entries.len() as u64, entries)
}

fn llama(heads: u32, layers: u32, width: u32) -> Vec<Vec<u8>> {
    vec![
        entry("llama.attention.head_count", 4, &heads.to_le_bytes()),
        entry("llama.block_count", 4, &layers.to_le_bytes()),
        entry("llama.embedding_length", 4, &width.to_le_bytes()),
    ]
}

fn params_of(data: &[u8]) -> Result<ModelParams, InvalidFormat> {
    let mut src = ByteSource::new(data);
    read_model_params(&mut src)
}

#[test]
fn well_formed_small_file_gives_the_cache_size() {
    let data = header(&llama(32, 32, 4096));
    let est = estimate_memory(&data, 0, "model.gguf", 4096, KvQuant::Int8).unwrap().unwrap();
    assert_eq!(est.kv_cache_mb, 1073);
    assert_eq!(est.model_size_mb, 0);
    assert_eq!(est.total_required_mb, 1073);
    assert_eq!(est.kv_quant, KvQuant::Int8);
    assert_eq!(est.display, "1.1 GB (Model: 0 MB + KV: 1.1 GB @ INT8)");
}

#[test]
fn display_string_names_the_three_sizes() {
    let data = header(&llama(1, 100, 5000));
    let est = estimate_memory(&data, 2_600_000_000, "m.gguf", 1000, KvQuant::Q4).unwrap().unwrap();
    assert_eq!(est.total_required_mb, 3100);
    assert_eq!(est.model_size_mb, 2600);
    assert_eq!(est.kv_cache_mb, 500);
    assert_eq!(est.display, "3.1 GB (Model: 2.6 GB + KV: 500 MB @ Q4 (4-bit))");
}

#[test]
fn parameters_are_read() {
    let data = header(&llama(32, 40, 4096));
    assert_eq!(data[..4], 0x4747_5546u32.to_le_bytes());
    assert_eq!(
        params_of(&data),
        Ok(ModelParams {
            attention_heads: Some(32),
            kv_heads: Some(32),
            hidden_layers: Some(40),
            hidden_size: Some(4096),
            split_count: None,
        })
    );
}

#[test]
fn kv_heads_and_split_count_are_read_when_they_come_first() {
    let data = header(&[
        entry("general.name", 8, &text("a model")),
        entry("split.count", 2, &5u16.to_le_bytes()),
        entry("llama.attention.head_count_kv", 0, &[8]),
        entry("llama.attention.head_count", 10, &64u64.to_le_bytes()),
        entry("llama.block_count", 5, &80u32.to_le_bytes()),
        entry("llama.embedding_length", 10, &8192u64.to_le_bytes()),
        entry("never.read", 99, &[]),
    ]);
    assert_eq!(
        params_of(&data),
        Ok(ModelParams {
            attention_heads: Some(64),
            kv_heads: Some(8),
            hidden_layers: Some(80),
            hidden_size: Some(8192),
            split_count: Some(5),
        })
    );
}

#[test]
fn reading_stops_once_the_required_parameters_are_known() {
    let mut data = header_with_version(3, 1000, &llama(1, 2, 3));
    data.extend_from_slice(&[0xff; 5]);
    assert_eq!(params_of(&data).unwrap().hidden_layers, Some(2));
}

#[test]
fn the_first_entry_for_a_parameter_decides() {
    let data = header(&[
        entry("a.block_count", 4, &11u32.to_le_bytes()),
        entry("b.block_count", 7, &[1]),
        entry("b.block_count", 4, &22u32.to_le_bytes()),
        entry("a.attention.head_count", 4, &1u32.to_le_bytes()),
        entry("a.embedding_length", 4, &9u32.to_le_bytes()),
    ]);
    assert_eq!(params_of(&data).unwrap().hidden_layers, Some(11));
}

#[test]
fn strings_in_numeric_slots_are_decimal_numbers() {
    let data = header(&[
        entry("a.attention.head_count", 8, &text(" 12 ")),
        entry("a.block_count", 8, &text("+3")),
        entry("a.embedding_length", 8, &text("18446744073709551615")),
    ]);
    let params = params_of(&data).unwrap();
    assert_eq!(params.attention_heads, Some(12));
    assert_eq!(params.hidden_layers, Some(3));
    assert_eq!(params.hidden_size, Some(u64::MAX));
    let bad = header(&[entry("a.block_count", 8, &text("4294967296"))]);
    assert_eq!(params_of(&bad), Err(InvalidFormat::InvalidNumber));
    let worse = header(&[entry("a.embedding_length", 8, &text("12a"))]);
    assert_eq!(params_of(&worse), Err(InvalidFormat::InvalidNumber));
}

#[test]
fn version_zero_has_no_tensor_count() {
    let data = header_with_version(0, 3, &llama(1, 2, 3));
    assert_eq!(params_of(&data).unwrap().hidden_size, Some(3));
}

#[test]
fn bad_headers_are_refused() {
    assert_eq!(params_of(&MAGIC_BYTES[..3]), Err(InvalidFormat::UnexpectedEnd));
    assert_eq!(params_of(b"GGUF\x03\0\0\0"), Err(InvalidFormat::BadMagic));
    assert_eq!(params_of(&[0x47, 0x55, 0x47, 0x47, 3, 0, 0, 0]), Err(InvalidFormat::BadMagic));
    let newer = header_with_version(4, 0, &[]);
    assert_eq!(params_of(&newer), Err(InvalidFormat::UnsupportedVersion));
    let mut cut_count = start(3);
    cut_count.extend_from_slice(&[0, 0]);
    assert_eq!(params_of(&cut_count), Err(InvalidFormat::UnexpectedEnd));
    assert_eq!(params_of(&header(&[])), Err(InvalidFormat::MissingParameter));
    let two = &llama(1, 2, 3)[..2];
    assert_eq!(params_of(&header(two)), Err(InvalidFormat::MissingParameter));
    let announced = header_with_version(3, 4, &llama(1, 2, 3)[..2]);
    assert_eq!(params_of(&announced), Err(InvalidFormat::UnexpectedEnd));
}

#[test]
fn bad_entries_are_refused() {
    let mut long_key = start(3);
    long_key.extend_from_slice(&0u64.to_le_bytes());
    long_key.extend_from_slice(&1u64.to_le_bytes());
    long_key.extend_from_slice(&1_048_577u64.to_le_bytes());
    assert_eq!(params_of(&long_key), Err(InvalidFormat::StringTooLong));

    let mut not_text = start(3);
    not_text.extend_from_slice(&0u64.to_le_bytes());
    not_text.extend_from_slice(&1u64.to_le_bytes());
    not_text.extend_from_slice(&2u64.to_le_bytes());
    not_text.extend_from_slice(&[0xc3, 0x28]);
    not_text.extend_from_slice(&4u32.to_le_bytes());
    assert_eq!(params_of(&not_text), Err(InvalidFormat::InvalidText));

    let boolean = header(&[entry("a.block_count", 7, &[1])]);
    assert_eq!(params_of(&boolean), Err(InvalidFormat::NotNumeric));
    let float64 = header(&[entry("a.block_count", 12, &[0; 8])]);
    assert_eq!(params_of(&float64), Err(InvalidFormat::NotNumeric));
    let narrow = header(&[entry("a.embedding_length", 2, &[0; 2])]);
    assert_eq!(params_of(&narrow), Err(InvalidFormat::NotNumeric));
    let large = header(&[entry("a.block_count", 10, &4_294_967_296u64.to_le_bytes())]);
    assert_eq!(params_of(&large), Err(InvalidFormat::ValueOutOfRange));
    let fits = header(&[entry("a.block_count", 11, &4_294_967_295u64.to_le_bytes())]);
    assert_eq!(params_of(&fits), Err(InvalidFormat::MissingParameter));
    let unknown = header(&[entry("other", 13, &[])]);
    assert_eq!(params_of(&unknown), Err(InvalidFormat::UnknownType));
    let cut = header(&[entry("a.block_count", 4, &[1, 0])]);
    assert_eq!(params_of(&cut), Err(InvalidFormat::UnexpectedEnd));
}

#[test]
fn little_endian_numbers_are_read() {
    let data = [1u8, 2, 3, 4, 5, 6, 7, 8, 9, 10, 11, 12, 13, 14, 15];
    let mut src = ByteSource::new(&data);
    assert_eq!(read_u8(&mut src), Ok(1));
    assert_eq!(read_u16(&mut src), Ok(0x0302));
    assert_eq!(read_u32(&mut src), Ok(0x07060504));
    assert_eq!(read_u64(&mut src), Ok(0x0f0e0d0c0b0a0908));
    assert_eq!(read_u8(&mut src), Err(InvalidFormat::UnexpectedEnd));
    let mut src = ByteSource::new(&data[..7]);
    assert_eq!(read_u64(&mut src), Err(InvalidFormat::UnexpectedEnd));
    assert_eq!(read_u32(&mut src), Ok(0x04030201));
    assert_eq!(read_u32(&mut src), Err(InvalidFormat::UnexpectedEnd));
    assert_eq!(read_u16(&mut src), Ok(0x0605));
    assert_eq!(read_u16(&mut src), Err(InvalidFormat::UnexpectedEnd));
    let all = [0xffu8; 8];
    let mut src = ByteSource::new(&all);
    assert_eq!(read_u64(&mut src), Ok(u64::MAX));
}

#[test]
fn strings_are_read() {
    let mut data = text("gr\u{fc}n");
    data.extend_from_slice(&text(""));
    data.push(1);
    let mut src = ByteSource::new(&data);
    assert_eq!(read_string(&mut src), Ok("gr\u{fc}n".to_string()));
    assert_eq!(read_string(&mut src), Ok(String::new()));
    assert_eq!(read_string(&mut src), Err(InvalidFormat::UnexpectedEnd));
    let mut short = 5u64.to_le_bytes().to_vec();
    short.extend_from_slice(b"abcd");
    let mut src = ByteSource::new(&short);
    assert_eq!(read_string(&mut src), Err(InvalidFormat::UnexpectedEnd));
}

#[test]
fn typed_numbers_are_read() {
    let data = [0x2au8, 0, 0, 0, 0, 0, 0, 0];
    for typ in [0u32, 1, 2, 3, 4, 5, 6, 10, 11] {
        let mut src = ByteSource::new(&data);
        assert_eq!(read_u32_of_type(&mut src, typ), Ok(42));
    }
    for typ in [7u32, 9, 12, 13] {
        let mut src = ByteSource::new(&data);
        assert_eq!(read_u32_of_type(&mut src, typ), Err(InvalidFormat::NotNumeric));
    }
    for typ in [4u32, 5, 10, 11] {
        let mut src = ByteSource::new(&data);
        assert_eq!(read_u64_of_type(&mut src, typ), Ok(42));
    }
    for typ in [0u32, 1, 2, 3, 6, 7, 9, 12, 13] {
        let mut src = ByteSource::new(&data);
        assert_eq!(read_u64_of_type(&mut src, typ), Err(InvalidFormat::NotNumeric));
    }
    let number = text("\t77\n");
    let mut src = ByteSource::new(&number);
    assert_eq!(read_u32_of_type(&mut src, 8), Ok(77));
    let mut src = ByteSource::new(&number);
    assert_eq!(read_u64_of_type(&mut src, 8), Ok(77));
}

fn after_skip(value: &[u8], typ: u32) -> Result<u8, InvalidFormat> {
    let mut data = value.to_vec();
    data.push(0x5a);
    let mut src = ByteSource::new(&data);
    skip_value(&mut src, typ)?;
    read_u8(&mut src)
}

#[test]
fn values_are_skipped_by_their_width() {
    assert_eq!(after_skip(&[0], 0), Ok(0x5a));
    assert_eq!(after_skip(&[0], 1), Ok(0x5a));
    assert_eq!(after_skip(&[0], 7), Ok(0x5a));
    assert_eq!(after_skip(&[0; 2], 2), Ok(0x5a));
    assert_eq!(after_skip(&[0; 2], 3), Ok(0x5a));
    assert_eq!(after_skip(&[0; 4], 4), Ok(0x5a));
    assert_eq!(after_skip(&[0; 4], 5), Ok(0x5a));
    assert_eq!(after_skip(&[0; 4], 6), Ok(0x5a));
    assert_eq!(after_skip(&[0; 8], 10), Ok(0x5a));
    assert_eq!(after_skip(&[0; 8], 11), Ok(0x5a));
    assert_eq!(after_skip(&[0; 8], 12), Ok(0x5a));
    assert_eq!(after_skip(&text("hello"), 8), Ok(0x5a));
    assert_eq!(after_skip(&[], 13), Err(InvalidFormat::UnknownType));
    assert_eq!(after_skip(&[0; 3], 10), Err(InvalidFormat::UnexpectedEnd));
}

fn array(elem_type: u32, count: u64, elements: &[u8]) -> Vec<u8> {
    let mut out = elem_type.to_le_bytes().to_vec();
    out.extend_from_slice(&count.to_le_bytes());
    out.extend_from_slice(elements);
    out
}

#[test]
fn arrays_are_skipped_with_their_elements() {
    assert_eq!(after_skip(&array(4, 3, &[0; 12]), 9), Ok(0x5a));
    assert_eq!(after_skip(&array(13, 0, &[]), 9), Ok(0x5a));
    assert_eq!(after_skip(&array(13, 1, &[]), 9), Err(InvalidFormat::UnknownType));
    let mut words = text("a");
    words.extend_from_slice(&text("bc"));
    words.extend_from_slice(&text(""));
    assert_eq!(after_skip(&array(8, 3, &words), 9), Ok(0x5a));
    assert_eq!(after_skip(&array(8, 4, &words), 9), Err(InvalidFormat::UnexpectedEnd));
    let mut nested = array(2, 2, &[0; 4]);
    nested.extend_from_slice(&array(8, 1, &text("xyz")));
    assert_eq!(after_skip(&array(9, 2, &nested), 9), Ok(0x5a));
    assert_eq!(after_skip(&array(10, u64::MAX, &[]), 9), Err(InvalidFormat::UnexpectedEnd));
    assert_eq!(after_skip(&[0; 11], 9), Err(InvalidFormat::UnexpectedEnd));
}

#[test]
fn skipping_may_run_off_the_end() {
    let data = [0u8; 3];
    let mut src = ByteSource::new(&data);
    assert_eq!(skip_value(&mut src, 10), Ok(()));
    assert_eq!(skip_value(&mut src, 0), Ok(()));
    assert_eq!(read_u8(&mut src), Err(InvalidFormat::UnexpectedEnd));
    let mut long = 10_000_000u64.to_le_bytes().to_vec();
    long.push(1);
    let mut src = ByteSource::new(&long);
    assert_eq!(skip_value(&mut src, 8), Ok(()));
    let too_long = 10_000_001u64.to_le_bytes();
    let mut src = ByteSource::new(&too_long);
    assert_eq!(skip_value(&mut src, 8), Err(InvalidFormat::StringTooLong));
}

#[test]
fn shards_are_told_by_the_file_name() {
    assert_eq!(infer_split_count_from_path("models/llama-00001-of-00005.gguf"), Some(5));
    assert_eq!(infer_split_count_from_path("llama-2-of-12"), Some(12));
    assert_eq!(infer_split_count_from_path("/a-1-of-3.d/llama.gguf"), None);
    assert_eq!(infer_split_count_from_path("llama-1-of-1.gguf"), None);
    assert_eq!(infer_split_count_from_path("llama-1-of-0.gguf"), None);
    assert_eq!(infer_split_count_from_path("llama-1-of-2x.gguf"), None);
    assert_eq!(infer_split_count_from_path("llama-of-2.gguf"), None);
    assert_eq!(infer_split_count_from_path("llama.gguf"), None);
    assert_eq!(infer_split_count_from_path(""), None);
    assert_eq!(infer_split_count_from_path(".llama-1-of-2"), Some(2));
    assert_eq!(infer_split_count_from_path("a-1-of-2-3-of-4.tar.gz"), None);
    assert_eq!(infer_split_count_from_path("a-1-of-2-3-of-4.gguf"), Some(4));
    assert_eq!(infer_split_count_from_path("a-1-of-4294967295.gguf"), Some(u32::MAX));
    assert_eq!(infer_split_count_from_path("a-1-of-4294967296.gguf"), None);
    assert_eq!(infer_split_count_from_path("a-\u{661}-of-\u{663}.gguf"), None);
    assert_eq!(infer_split_count_from_path("a-\u{661}-of-3.gguf"), Some(3));
}

#[test]
fn captured_text_is_read_as_a_count() {
    assert_eq!(split_count_of_capture(Some("00005")), Some(5));
    assert_eq!(split_count_of_capture(Some("2")), Some(2));
    assert_eq!(split_count_of_capture(Some("1")), None);
    assert_eq!(split_count_of_capture(Some("0")), None);
    assert_eq!(split_count_of_capture(Some("")), None);
    assert_eq!(split_count_of_capture(Some("x")), None);
    assert_eq!(split_count_of_capture(None), None);
}

#[test]
fn shards_multiply_the_file_size() {
    let mut entries = llama(1, 1, 1);
    entries.insert(0, entry("split.count", 4, &3u32.to_le_bytes()));
    let data = header(&entries);
    let by_metadata = estimate_memory(&data, 1_500_000, "m.gguf", 0, KvQuant::FP16).unwrap().unwrap();
    assert_eq!(by_metadata.model_size_mb, 4);
    let by_name =
        estimate_memory(&data, 1_500_000, "m-00001-of-00002.gguf", 0, KvQuant::FP16).unwrap().unwrap();
    assert_eq!(by_name.model_size_mb, 3);
    let plain = header(&llama(1, 1, 1));
    let single = estimate_memory(&plain, 1_500_000, "m.gguf", 0, KvQuant::FP16).unwrap().unwrap();
    assert_eq!(single.model_size_mb, 1);
    let named =
        estimate_memory(&plain, 1_500_000, "m-00001-of-00004.gguf", 0, KvQuant::FP16).unwrap().unwrap();
    assert_eq!(named.model_size_mb, 6);
    let given = estimate_with_shards(&plain, 1_500_000, Some(1), 0, KvQuant::FP16).unwrap().unwrap();
    assert_eq!(given.model_size_mb, 1);
    let capped = estimate_with_shards(&plain, u64::MAX, Some(2), 0, KvQuant::FP16).unwrap().unwrap();
    assert_eq!(capped.model_size_mb, u64::MAX / 1_000_000);
}

#[test]
fn estimate_is_refused_with_the_header() {
    assert_eq!(
        estimate_memory(b"nothing", 10, "m.gguf", 1, KvQuant::Q4),
        Err(InvalidFormat::BadMagic)
    );
    assert_eq!(
        estimate_with_shards(&header(&[]), 10, None, 1, KvQuant::Q4),
        Err(InvalidFormat::MissingParameter)
    );
}

#[test]
fn estimate_is_the_same_every_time() {
    let data = header(&llama(32, 32, 4096));
    let first = estimate_memory(&data, 123_456_789, "m-1-of-2.gguf", 8192, KvQuant::Q6);
    let second = estimate_memory(&data, 123_456_789, "m-1-of-2.gguf", 8192, KvQuant::Q6);
    assert_eq!(first, second);
    assert_eq!(first.unwrap().unwrap().kv_cache_mb, 1610);
}

#[test]
fn cache_size_follows_the_quantisation() {
    assert_eq!(kv_cache_mb(1000, 1000, 1, KvQuant::FP32), 8);
    assert_eq!(kv_cache_mb(1000, 1000, 1, KvQuant::FP16), 4);
    assert_eq!(kv_cache_mb(1000, 1000, 1, KvQuant::Int8), 2);
    assert_eq!(kv_cache_mb(1000, 1000, 2, KvQuant::Q6), 3);
    assert_eq!(kv_cache_mb(1000, 1000, 1, KvQuant::Q6), 1);
    assert_eq!(kv_cache_mb(1000, 1000, 4, KvQuant::Q5), 5);
    assert_eq!(kv_cache_mb(1000, 1000, 1, KvQuant::Q5), 1);
    assert_eq!(kv_cache_mb(1000, 1000, 1, KvQuant::Q4), 1);
    assert_eq!(kv_cache_mb(999, 1000, 1, KvQuant::Q4), 0);
    assert_eq!(kv_cache_mb(0, 1000, 1, KvQuant::FP32), 0);
    assert_eq!(kv_cache_mb(u64::MAX, u32::MAX, usize::MAX, KvQuant::FP32), u64::MAX);
    assert_eq!(kv_cache_mb(u64::MAX, 1, 1, KvQuant::Q4), u64::MAX / 1_000_000);
}

#[test]
fn total_is_capped() {
    let data = header(&llama(1, u32::MAX, u32::MAX));
    let est = estimate_with_shards(&data, u64::MAX, None, usize::MAX, KvQuant::FP32).unwrap().unwrap();
    assert_eq!(est.kv_cache_mb, u64::MAX);
    assert_eq!(est.total_required_mb, u64::MAX);
}

#[test]
fn quantisations_have_labels() {
    assert_eq!(KvQuant::FP32.label(), "FP32");
    assert_eq!(KvQuant::FP16.label(), "FP16/BF16");
    assert_eq!(KvQuant::Int8.label(), "INT8");
    assert_eq!(KvQuant::Q6.label(), "Q6 (6-bit)");
    assert_eq!(KvQuant::Q5.label(), "Q5 (5-bit)");
    assert_eq!(KvQuant::Q4.label(), "Q4 (4-bit)");
    assert_eq!(KvQuant::FP32.quarter_bytes_per_value(), 32);
    assert_eq!(KvQuant::Q5.quarter_bytes_per_value(), 5);
}

#[test]
fn sizes_are_shown_in_megabytes_or_gigabytes() {
    assert_eq!(fmt_memory(0), "0 MB");
    assert_eq!(fmt_memory(500), "500 MB");
    assert_eq!(fmt_memory(999), "999 MB");
    assert_eq!(fmt_memory(1000), "1.0 GB");
    assert_eq!(fmt_memory(1049), "1.0 GB");
    assert_eq!(fmt_memory(1050), "1.1 GB");
    assert_eq!(fmt_memory(1051), "1.1 GB");
    assert_eq!(fmt_memory(1150), "1.1 GB");
    assert_eq!(fmt_memory(1250), "1.2 GB");
    assert_eq!(fmt_memory(1750), "1.8 GB");
    assert_eq!(fmt_memory(2600), "2.6 GB");
    assert_eq!(fmt_memory(3100), "3.1 GB");
    assert_eq!(fmt_memory(u64::MAX), "18446744073709552.0 GB");
}

/// The size in gigabytes as a double-precision number with one decimal.
fn as_fraction(mb: u64) -> String {
    format!("{:.1} GB", mb as f64 / 1000.0)
}

#[test]
fn gigabytes_are_shown_as_the_fraction_is_written() {
    for mb in 1000..300_000u64 {
        assert_eq!(fmt_memory(mb), as_fraction(mb));
    }
    let mut seed: u64 = 0x9e37_79b9_7f4a_7c15;
    for _ in 0..20_000 {
        seed ^= seed << 13;
        seed ^= seed >> 7;
        seed ^= seed << 17;
        for shift in [0u32, 3, 8, 11, 12, 20, 30, 40, 44, 50] {
            let mb = (seed >> shift).max(1000);
            assert_eq!(fmt_memory(mb), as_fraction(mb));
            let tie = (mb / 100 * 100 + 50).max(1050);
            assert_eq!(fmt_memory(tie), as_fraction(tie));
        }
    }
    for k in 40..64u32 {
        for delta in 0..200u64 {
            for mb in [
                (1u64 << k) + delta,
                (1u64 << k) - delta,
                1000 * (1u64 << (k - 10)) + delta,
                1000 * (1u64 << (k - 10)) - delta,
            ] {
                assert_eq!(fmt_memory(mb), as_fraction(mb));
            }
        }
    }
    for delta in 0..5_000u64 {
        assert_eq!(fmt_memory(u64::MAX - delta), as_fraction(u64::MAX - delta));
    }
}

#[test]
fn a_head_of_the_file_gives_what_the_file_gives() {
    let mut file = header(&[
        entry("general.tags", 9, &array(8, 2, &[text("a"), text("bc")].concat())),
        entry("llama.attention.head_count", 4, &32u32.to_le_bytes()),
        entry("llama.block_count", 4, &32u32.to_le_bytes()),
        entry("llama.embedding_length", 4, &4096u32.to_le_bytes()),
    ]);
    let enough = file.len();
    file.extend_from_slice(&[0xab; 100]);
    let whole = estimate_memory(&file, 5_000_000, "m.gguf", 4096, KvQuant::Int8);
    assert_eq!(whole.as_ref().unwrap().as_ref().unwrap().kv_cache_mb, 1073);
    for len in 0..file.len() {
        let head = estimate_memory(&file[..len], 5_000_000, "m.gguf", 4096, KvQuant::Int8);
        if len < enough {
            assert_eq!(head, Err(InvalidFormat::UnexpectedEnd));
        } else {
            assert_eq!(head, whole);
        }
    }
}

#[test]
fn a_longer_head_is_read_only_where_the_head_ran_out() {
    let ran_out = Err(InvalidFormat::UnexpectedEnd);
    assert_eq!(next_head(&ran_out, 1024, 1024), HeadStep::ReadMore(2048));
    assert_eq!(next_head(&ran_out, 2000, 1024), HeadStep::ReadMore(2048));
    assert_eq!(next_head(&ran_out, 1023, 1024), HeadStep::Done);
    assert_eq!(next_head(&ran_out, 0, 0), HeadStep::ReadMore(1));
    assert_eq!(next_head(&ran_out, 1 << 63, 1 << 63), HeadStep::ReadMore(u64::MAX));
    assert_eq!(
        next_head(&ran_out, u64::MAX, (1 << 63) - 1),
        HeadStep::ReadMore(u64::MAX - 1)
    );
    assert_eq!(next_head(&Err(InvalidFormat::BadMagic), 1024, 1024), HeadStep::Done);
    assert_eq!(next_head(&Ok(None), 1024, 1024), HeadStep::Done);
    let data = header(&llama(1, 1, 1));
    let found = estimate_memory(&data, 1, "m.gguf", 1, KvQuant::Q4);
    assert_eq!(next_head(&found, data.len() as u64, data.len() as u64), HeadStep::Done);
    let cut = estimate_memory(&data[..20], 1, "m.gguf", 1, KvQuant::Q4);
    assert_eq!(next_head(&cut, 20, 20), HeadStep::ReadMore(40));
}
