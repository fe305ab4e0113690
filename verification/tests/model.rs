use manga_ocr::config::{ConfigError, ConfigField, ConfigFields, GenerationConfig};
use manga_ocr::decoder::{DecodeError, Logits};
use manga_ocr::error::OcrError;
use manga_ocr::model::{
    classify, finish_text, required_output, token_ids, ArtifactMarks, ModelDir, OCRModel,
};
use manga_ocr::preprocess::{ChannelLayout, PixelTensor, RawImage};
use tokenizers::Tokenizer;

fn policy() -> GenerationConfig {
    GenerationConfig {
        decoder_start_token_id: 2,
        early_stopping: true,
        eos_token_id: 3,
        length_penalty_bits: 0x4000_0000,
        max_length: 300,
        no_repeat_ngram_size: 3,
        num_beams: 4,
        pad_token_id: 0,
        transformers_version: String::from("4.52.4"),
    }
}

fn special(id: u32, content: &str) -> String {
    format!(
        "{{\"id\":{},\"content\":\"{}\",\"single_word\":false,\"lstrip\":false,\"rstrip\":false,\"normalized\":false,\"special\":true}}",
        id, content
    )
}

fn tokenizer() -> Tokenizer {
    let document = format!(
        "{{\"version\":\"1.0\",\"truncation\":null,\"padding\":null,\"added_tokens\":[{},{},{},{}],\"normalizer\":null,\"pre_tokenizer\":null,\"post_processor\":null,\"decoder\":null,\"model\":{{\"type\":\"WordLevel\",\"vocab\":{{\"[PAD]\":0,\"[UNK]\":1,\"[CLS]\":2,\"[SEP]\":3,\"悪魔\":4,\"と\":5,\"の\":6,\"戦い\":7}},\"unk_token\":\"[UNK]\"}}}}",
        special(0, "[PAD]"),
        special(1, "[UNK]"),
        special(2, "[CLS]"),
        special(3, "[SEP]")
    );
    Tokenizer::from_bytes(document.as_bytes()).unwrap()
}

fn picture() -> RawImage {
    RawImage::from_raw(ChannelLayout::Rgba, 1, 1, vec![200, 100, 50, 255]).unwrap()
}

fn paths(names: &[&str]) -> Vec<String> {
    names.iter().map(|n| String::from(*n)).collect()
}

#[test]
fn model_dir_finds_the_four_artifacts() {
    let files = paths(&[
        "/cache/m/README.md",
        "/cache/m/decoder_model.onnx",
        "/cache/m/encoder_model.onnx",
        "/cache/m/generation_config.json",
        "/cache/m/tokenizer.json",
        "/cache/m/vocab.txt",
    ]);
    let dir = ModelDir::new(&files).unwrap();
    assert_eq!(dir.encoder_path, "/cache/m/encoder_model.onnx");
    assert_eq!(dir.decoder_path, "/cache/m/decoder_model.onnx");
    assert_eq!(dir.tokenizer_config_path, "/cache/m/tokenizer.json");
    assert_eq!(dir.gen_config_path, "/cache/m/generation_config.json");
}

#[test]
fn model_dir_fails_when_an_artifact_is_missing() {
    let all = [
        "/m/decoder_model.onnx",
        "/m/encoder_model.onnx",
        "/m/generation_config.json",
        "/m/tokenizer.json",
    ];
    for skip in 0..all.len() {
        let files: Vec<String> = all
            .iter()
            .enumerate()
            .filter(|(i, _)| *i != skip)
            .map(|(_, n)| String::from(*n))
            .collect();
        let err = ModelDir::new(&files).unwrap_err();
        assert!(matches!(&err, OcrError::Model(text)
            if text == "Missing encoder, decoder model / tokenizer or generation config"));
    }
    assert!(ModelDir::new(&[]).is_err());
}

#[test]
fn model_dir_compares_whole_file_names() {
    let files = paths(&[
        "/m/my_encoder_model.onnx",
        "/m/decoder_model.onnx",
        "/m/generation_config.json",
        "/m/tokenizer.json",
    ]);
    assert!(ModelDir::new(&files).is_err());
    let files = paths(&[
        "encoder_model.onnx",
        "decoder_model.onnx",
        "generation_config.json",
        "tokenizer.json",
    ]);
    assert!(ModelDir::new(&files).is_ok());
}

#[test]
fn model_dir_takes_the_last_file_of_a_name() {
    let files = paths(&[
        "/a/encoder_model.onnx",
        "/a/decoder_model.onnx",
        "/a/generation_config.json",
        "/a/tokenizer.json",
        "/b/encoder_model.onnx",
    ]);
    let dir = ModelDir::new(&files).unwrap();
    assert_eq!(dir.encoder_path, "/b/encoder_model.onnx");
    assert_eq!(dir.decoder_path, "/a/decoder_model.onnx");
}

const NONE: ArtifactMarks =
    ArtifactMarks { encoder: false, decoder: false, tokenizer: false, gen_config: false };

#[test]
fn classify_goes_by_whole_path_components() {
    assert_eq!(classify("/x/onnx/encoder_model.onnx"), ArtifactMarks { encoder: true, ..NONE });
    assert_eq!(classify("decoder_model.onnx"), ArtifactMarks { decoder: true, ..NONE });
    assert_eq!(classify("/x/tokenizer.json"), ArtifactMarks { tokenizer: true, ..NONE });
    assert_eq!(classify("a/generation_config.json"), ArtifactMarks { gen_config: true, ..NONE });
    assert_eq!(classify("/x/my_tokenizer.json"), NONE);
    assert_eq!(classify("/x/tokenizer.json.bak"), NONE);
    assert_eq!(classify("/x/tokenizer.json/other"), NONE);
    assert_eq!(classify(""), NONE);
}

#[test]
fn assemble_takes_the_last_marked_path_of_each_artifact() {
    let files = paths(&["a", "b", "c", "d", "e", "f"]);
    let marks = [
        ArtifactMarks { encoder: true, ..NONE },
        ArtifactMarks { decoder: true, tokenizer: true, ..NONE },
        NONE,
        ArtifactMarks { encoder: true, gen_config: true, ..NONE },
        ArtifactMarks { tokenizer: true, ..NONE },
        NONE,
    ];
    let dir = ModelDir::assemble(&files, &marks).unwrap();
    assert_eq!(dir.encoder_path, "d");
    assert_eq!(dir.decoder_path, "b");
    assert_eq!(dir.tokenizer_config_path, "e");
    assert_eq!(dir.gen_config_path, "d");
}

#[test]
fn assemble_fails_when_an_artifact_is_marked_nowhere() {
    let files = paths(&["a", "b", "c"]);
    let marks = [
        ArtifactMarks { encoder: true, decoder: true, ..NONE },
        NONE,
        ArtifactMarks { tokenizer: true, ..NONE },
    ];
    let err = ModelDir::assemble(&files, &marks).unwrap_err();
    assert_eq!(
        err.message(),
        "Model error: Missing encoder, decoder model / tokenizer or generation config"
    );
    assert!(ModelDir::assemble(&[], &[]).is_err());
}

#[test]
fn required_output_finds_the_named_output() {
    let names = paths(&["logits", "last_hidden_state", "pooled", "logits"]);
    assert!(matches!(required_output(&names, &String::from("last_hidden_state")), Ok(1)));
    assert!(matches!(required_output(&names, &String::from("logits")), Ok(0)));
    assert!(matches!(required_output(&names, &String::from("pooled")), Ok(2)));
}

#[test]
fn required_output_missing_is_a_model_error() {
    let names = paths(&["logits", "pooled"]);
    let err = required_output(&names, &String::from("last_hidden_state")).unwrap_err();
    assert!(matches!(&err, OcrError::Model(text) if text == "Missing output: last_hidden_state"));
    assert_eq!(err.message(), "Model error: Missing output: last_hidden_state");
    assert!(required_output(&[], &String::from("logits")).is_err());
    assert!(required_output(&names, &String::from("logit")).is_err());
}

#[test]
fn token_ids_keeps_vocabulary_ids() {
    assert_eq!(token_ids(&vec![2, 4, 5, 6, 7, 3]), vec![2u32, 4, 5, 6, 7, 3]);
    assert_eq!(token_ids(&vec![]), Vec::<u32>::new());
    assert_eq!(token_ids(&vec![u32::MAX as i64]), vec![u32::MAX]);
    assert_eq!(token_ids(&vec![1 << 32, -1]), vec![0u32, u32::MAX]);
}

#[test]
fn finish_text_strips_every_space() {
    let out = finish_text(Some(String::from("悪魔 と の 戦い"))).unwrap();
    assert_eq!(out, "悪魔との戦い");
    assert_eq!(finish_text(Some(String::from("  a  b "))).unwrap(), "ab");
    assert_eq!(finish_text(Some(String::from("a\u{3000}b\tc"))).unwrap(), "a\u{3000}b\tc");
    assert_eq!(finish_text(Some(String::new())).unwrap(), "");
}

#[test]
fn finish_text_reports_a_tokenizer_failure() {
    let err = finish_text(None).unwrap_err();
    assert!(matches!(&err, OcrError::Tokenizer(text) if text == "Failed to decode"));
    assert_eq!(err.message(), "Tokenizer error: Failed to decode");
}

fn detokenize(tokenizer: &Tokenizer, ids: &Vec<u32>, skip_special_tokens: bool) -> Option<String> {
    tokenizer.decode(ids, skip_special_tokens).ok()
}

fn favouring(token: usize, positions: usize) -> Logits {
    let vocabulary = 8;
    let mut scores = vec![-3; positions * vocabulary];
    scores[(positions - 1) * vocabulary + token] = 12;
    Logits { shape: vec![1, positions, vocabulary], scores }
}

#[test]
fn model_test_ocr() {
    let model = OCRModel::new(tokenizer(), policy());
    let encode = |tensor: &PixelTensor| -> Result<Vec<u8>, OcrError> {
        assert_eq!(tensor.shape(), [1, 3, 224, 224]);
        Ok(vec![tensor.levels()[0], tensor.levels()[224 * 224], tensor.levels()[2 * 224 * 224]])
    };
    let backend = |hidden: &Vec<u8>, ids: &Vec<i64>| -> Result<Logits, OcrError> {
        assert_eq!(hidden, &vec![200, 100, 50]);
        Ok(favouring([4, 5, 6, 7, 3][ids.len() - 1], ids.len()))
    };
    let output = model.run(&picture(), &encode, &backend, &detokenize);
    assert!(output.is_ok());
    let output = output.unwrap();
    assert_eq!(&output, "悪魔との戦い");
}

#[test]
fn run_hands_the_ids_of_the_run_to_the_detokenizer() {
    let model = OCRModel::new(7u8, policy());
    let encode = |_tensor: &PixelTensor| -> Result<(), OcrError> { Ok(()) };
    let backend = |_hidden: &(), ids: &Vec<i64>| -> Result<Logits, OcrError> {
        Ok(favouring([4, 5, 3][ids.len() - 1], ids.len()))
    };
    let spell = |tokenizer: &u8, ids: &Vec<u32>, skip: bool| -> Option<String> {
        assert_eq!(*tokenizer, 7);
        assert!(skip);
        assert_eq!(ids, &vec![2, 4, 5, 3]);
        Some(String::from(" a b  c "))
    };
    assert_eq!(model.run(&picture(), &encode, &backend, &spell), Ok(String::from("abc")));
}

#[test]
fn run_passes_an_encoder_error_on() {
    let model = OCRModel::new(tokenizer(), policy());
    let encode = |_tensor: &PixelTensor| -> Result<(), OcrError> {
        Err(OcrError::Model(String::from("Missing output: last_hidden_state")))
    };
    let backend = |_hidden: &(), _ids: &Vec<i64>| -> Result<Logits, OcrError> {
        panic!("the decoder must not run")
    };
    let never = |_t: &Tokenizer, _ids: &Vec<u32>, _skip: bool| -> Option<String> {
        panic!("the tokenizer must not run")
    };
    let err = model.run(&picture(), &encode, &backend, &never).unwrap_err();
    assert_eq!(err, OcrError::Model(String::from("Missing output: last_hidden_state")));
    assert_eq!(err.message(), "Model error: Missing output: last_hidden_state");
}

#[test]
fn run_passes_a_backend_error_on() {
    let model = OCRModel::new(tokenizer(), policy());
    let encode = |_tensor: &PixelTensor| -> Result<(), OcrError> { Ok(()) };
    let backend = |_hidden: &(), ids: &Vec<i64>| -> Result<Logits, OcrError> {
        if ids.len() < 3 {
            Ok(favouring(4, ids.len()))
        } else {
            Err(OcrError::Inference(DecodeError::Backend(String::from("session failed"))))
        }
    };
    let never = |_t: &Tokenizer, _ids: &Vec<u32>, _skip: bool| -> Option<String> {
        panic!("the tokenizer must not run")
    };
    let err = model.run(&picture(), &encode, &backend, &never).unwrap_err();
    assert_eq!(err, OcrError::Inference(DecodeError::Backend(String::from("session failed"))));
    assert_eq!(err.message(), "Inference error: session failed");
}

#[test]
fn run_reports_a_missing_logits_output_as_model_error() {
    let model = OCRModel::new(tokenizer(), policy());
    let encode = |_tensor: &PixelTensor| -> Result<(), OcrError> { Ok(()) };
    let backend = |_hidden: &(), ids: &Vec<i64>| -> Result<Logits, OcrError> {
        if ids.len() < 2 {
            return Ok(favouring(4, ids.len()));
        }
        let names = vec![String::from("past_key_values")];
        let at = required_output(&names, &String::from("logits"))?;
        panic!("no output stands at {}", at)
    };
    let err = model.run(&picture(), &encode, &backend, &detokenize).unwrap_err();
    assert_eq!(err, OcrError::Model(String::from("Missing output: logits")));
}

#[test]
fn run_reports_a_detokenizer_failure_as_tokenizer_error() {
    let model = OCRModel::new((), policy());
    let encode = |_tensor: &PixelTensor| -> Result<(), OcrError> { Ok(()) };
    let backend = |_hidden: &(), ids: &Vec<i64>| -> Result<Logits, OcrError> {
        Ok(favouring(3, ids.len()))
    };
    let failing = |_t: &(), _ids: &Vec<u32>, _skip: bool| -> Option<String> { None };
    let err = model.run(&picture(), &encode, &backend, &failing).unwrap_err();
    assert_eq!(err, OcrError::Tokenizer(String::from("Failed to decode")));
}

#[test]
fn error_messages_name_the_stage() {
    assert_eq!(OcrError::Io(String::from("no such file")).message(), "IO error: no such file");
    assert_eq!(OcrError::Image(String::from("bad png")).message(), "Image error: bad png");
    assert_eq!(
        OcrError::Config(ConfigError::MissingField(ConfigField::EosTokenId)).message(),
        "Config error: missing field: eos_token_id"
    );
    assert_eq!(
        OcrError::Inference(DecodeError::NotThreeDimensional).message(),
        "Inference error: Expected array to have 3 dimensions"
    );
    assert_eq!(
        DecodeError::EmptyAxis.message(),
        "Expected array to have no empty dimension"
    );
    assert_eq!(
        DecodeError::LengthMismatch.message(),
        "Expected as many values as the dimensions give"
    );
}

fn vocabulary_document() -> Vec<u8> {
    let document = format!(
        "{{\"version\":\"1.0\",\"truncation\":null,\"padding\":null,\"added_tokens\":[{},{}],\"normalizer\":null,\"pre_tokenizer\":null,\"post_processor\":null,\"decoder\":null,\"model\":{{\"type\":\"WordLevel\",\"vocab\":{{\"[PAD]\":0,\"[UNK]\":1,\"[CLS]\":2,\"[SEP]\":3,\"戦\":4,\"い\":5}},\"unk_token\":\"[UNK]\"}}}}",
        special(2, "[CLS]"),
        special(3, "[SEP]")
    );
    document.into_bytes()
}

fn fields() -> ConfigFields {
    ConfigFields {
        decoder_start_token_id: Some(2),
        early_stopping: Some(true),
        eos_token_id: Some(3),
        length_penalty_bits: Some(0x4000_0000),
        max_length: Some(300),
        no_repeat_ngram_size: Some(3),
        num_beams: Some(4),
        pad_token_id: Some(0),
        transformers_version: Some(String::from("4.52.4")),
    }
}

#[test]
fn load_builds_a_working_recognizer() {
    let vocabulary = Tokenizer::from_bytes(vocabulary_document()).ok();
    let model = OCRModel::load(vocabulary, fields()).unwrap();
    let encode = |_tensor: &PixelTensor| -> Result<(), OcrError> { Ok(()) };
    let backend = |_hidden: &(), ids: &Vec<i64>| -> Result<Logits, OcrError> {
        Ok(favouring([4, 5, 3][ids.len() - 1], ids.len()))
    };
    assert_eq!(model.run(&picture(), &encode, &backend, &detokenize).unwrap(), "戦い");
}

#[test]
fn load_without_eos_token_id_yields_no_recognizer() {
    let mut incomplete = fields();
    incomplete.eos_token_id = None;
    let res = OCRModel::load(Some(tokenizer()), incomplete);
    assert!(matches!(
        res,
        Err(OcrError::Config(ConfigError::MissingField(ConfigField::EosTokenId)))
    ));
}

#[test]
fn load_without_a_tokenizer_is_a_tokenizer_error() {
    let broken = Tokenizer::from_bytes(b"{ not a vocabulary").ok();
    assert!(broken.is_none());
    let res = OCRModel::load(broken, fields());
    assert!(matches!(&res, Err(OcrError::Tokenizer(text)) if text == "Failed to load tokenizer"));
}

#[test]
fn load_looks_at_the_tokenizer_first() {
    let mut incomplete = fields();
    incomplete.max_length = None;
    let res = OCRModel::load(None::<Tokenizer>, incomplete);
    assert!(matches!(&res, Err(OcrError::Tokenizer(text)) if text == "Failed to load tokenizer"));
}
