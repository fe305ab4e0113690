//! The model bundle and the path from an image to text.

use crate::config::ConfigFields;
use crate::config::GenerationConfig;
use crate::decoder::greedy_answers;
use crate::decoder::outcome_by;
use crate::decoder::Decoder;
use crate::decoder::Logits;
use crate::error::OcrError;
use crate::preprocess::preprocess_image;
use crate::preprocess::preprocessed;
use crate::preprocess::PixelTensor;
use crate::preprocess::RawImage;
use vstd::prelude::*;

verus! {

/// Whether the path `path` ends with the path `tail`, whole components
/// compared, as the platform reads paths.
pub uninterp spec fn path_ends_with(path: Seq<char>, tail: Seq<char>) -> bool;

/// Asks `std::path::Path::ends_with` whether `path` ends with `tail`. How
/// std splits and compares components is not written out here; the answer is
/// named. It depends on the two texts alone.
#[verifier::external_body]
fn ends_with(path: &str, tail: &str) -> (yes: bool)
    ensures
        yes == path_ends_with(path@, tail@),
{
    std::path::Path::new(path).ends_with(tail)
}

/// Which artifacts of a model bundle a file is, going by its name.
#[derive(Debug, Clone, Copy, PartialEq, Eq, Structural)]
pub struct ArtifactMarks {
    pub encoder: bool,
    pub decoder: bool,
    pub tokenizer: bool,
    pub gen_config: bool,
}

/// The marks of a file whose path is `path`: one for each artifact whose
/// file name the path ends with.
pub open spec fn marks_of(path: Seq<char>) -> ArtifactMarks {
    ArtifactMarks {
        encoder: path_ends_with(path, "encoder_model.onnx"@),
        decoder: path_ends_with(path, "decoder_model.onnx"@),
        tokenizer: path_ends_with(path, "tokenizer.json"@),
        gen_config: path_ends_with(path, "generation_config.json"@),
    }
}

/// The marks of each of `paths`, in order.
pub open spec fn all_marks_of(paths: Seq<String>) -> Seq<ArtifactMarks> {
    Seq::new(paths.len(), |i: int| marks_of(paths[i]@))
}

/// Tells which artifacts of a model bundle the file at `path` is.
pub fn classify(path: &str) -> (marks: ArtifactMarks)
    ensures
        marks == marks_of(path@),
{
    ArtifactMarks {
        encoder: ends_with(path, "encoder_model.onnx"),
        decoder: ends_with(path, "decoder_model.onnx"),
        tokenizer: ends_with(path, "tokenizer.json"),
        gen_config: ends_with(path, "generation_config.json"),
    }
}

/// `idx` is the last position at which `wanted` holds of the marks.
pub open spec fn is_last_marked(
    marks: Seq<ArtifactMarks>,
    wanted: spec_fn(ArtifactMarks) -> bool,
    idx: int,
) -> bool {
    &&& 0 <= idx < marks.len()
    &&& wanted(marks[idx])
    &&& forall|j: int| idx < j < marks.len() ==> !wanted(#[trigger] marks[j])
}

/// `wanted` holds of some marks.
pub open spec fn is_marked(marks: Seq<ArtifactMarks>, wanted: spec_fn(ArtifactMarks) -> bool) -> bool {
    exists|i: int| 0 <= i < marks.len() && wanted(#[trigger] marks[i])
}

/// `found` is the last of `paths` whose marks `wanted` holds of.
pub open spec fn is_pick(
    paths: Seq<String>,
    marks: Seq<ArtifactMarks>,
    wanted: spec_fn(ArtifactMarks) -> bool,
    found: String,
) -> bool {
    exists|i: int| #[trigger] is_last_marked(marks, wanted, i) && paths[i] == found
}

/// The bundle that `paths` with the marks `marks` make up: for each
/// artifact the last path marked as that artifact.
pub open spec fn is_bundle(paths: Seq<String>, marks: Seq<ArtifactMarks>, dir: ModelDir) -> bool {
    &&& is_pick(paths, marks, |m: ArtifactMarks| m.encoder, dir.encoder_path)
    &&& is_pick(paths, marks, |m: ArtifactMarks| m.decoder, dir.decoder_path)
    &&& is_pick(paths, marks, |m: ArtifactMarks| m.tokenizer, dir.tokenizer_config_path)
    &&& is_pick(paths, marks, |m: ArtifactMarks| m.gen_config, dir.gen_config_path)
}

/// Every artifact is marked somewhere.
pub open spec fn is_whole(marks: Seq<ArtifactMarks>) -> bool {
    &&& is_marked(marks, |m: ArtifactMarks| m.encoder)
    &&& is_marked(marks, |m: ArtifactMarks| m.decoder)
    &&& is_marked(marks, |m: ArtifactMarks| m.tokenizer)
    &&& is_marked(marks, |m: ArtifactMarks| m.gen_config)
}

/// The four artifacts of a model bundle, by path.
#[derive(Debug, Clone)]
pub struct ModelDir {
    pub encoder_path: String,
    pub decoder_path: String,
    pub tokenizer_config_path: String,
    pub gen_config_path: String,
}

impl ModelDir {
    /// Makes up the bundle from files and their marks. Where several files
    /// are marked as one artifact the last one counts. Fails exactly when an
    /// artifact is marked nowhere.
    pub fn assemble(paths: &[String], marks: &[ArtifactMarks]) -> (res: Result<ModelDir, OcrError>)
        requires
            paths@.len() == marks@.len(),
        ensures
            res is Ok <==> is_whole(marks@),
            res matches Ok(dir) ==> is_bundle(paths@, marks@, dir),
            res matches Err(e) ==> (e matches OcrError::Model(text) && text@
                == "Missing encoder, decoder model / tokenizer or generation config"@),
    {
        let mut encoder_path: Option<String> = None;
        let mut decoder_path: Option<String> = None;
        let mut tokenizer_config_path: Option<String> = None;
        let mut gen_config_path: Option<String> = None;
        let ghost is_encoder = |m: ArtifactMarks| m.encoder;
        let ghost is_decoder = |m: ArtifactMarks| m.decoder;
        let ghost is_tokenizer = |m: ArtifactMarks| m.tokenizer;
        let ghost is_gen_config = |m: ArtifactMarks| m.gen_config;
        let mut i: usize = 0;
        while i < paths.len()
            invariant
                i <= paths.len(),
                paths@.len() == marks@.len(),
                is_encoder == |m: ArtifactMarks| m.encoder,
                is_decoder == |m: ArtifactMarks| m.decoder,
                is_tokenizer == |m: ArtifactMarks| m.tokenizer,
                is_gen_config == |m: ArtifactMarks| m.gen_config,
                picked(paths@, marks@.take(i as int), is_encoder, encoder_path),
                picked(paths@, marks@.take(i as int), is_decoder, decoder_path),
                picked(paths@, marks@.take(i as int), is_tokenizer, tokenizer_config_path),
                picked(paths@, marks@.take(i as int), is_gen_config, gen_config_path),
            decreases paths.len() - i,
        {
            let mark = marks[i];
            if mark.encoder {
                proof {
                    lemma_picked_takes(paths@, marks@, is_encoder, i as int);
                }
                encoder_path = Some(paths[i].clone());
            } else {
                proof {
                    lemma_picked_skips(paths@, marks@, is_encoder, encoder_path, i as int);
                }
            }
            if mark.decoder {
                proof {
                    lemma_picked_takes(paths@, marks@, is_decoder, i as int);
                }
                decoder_path = Some(paths[i].clone());
            } else {
                proof {
                    lemma_picked_skips(paths@, marks@, is_decoder, decoder_path, i as int);
                }
            }
            if mark.tokenizer {
                proof {
                    lemma_picked_takes(paths@, marks@, is_tokenizer, i as int);
                }
                tokenizer_config_path = Some(paths[i].clone());
            } else {
                proof {
                    lemma_picked_skips(paths@, marks@, is_tokenizer, tokenizer_config_path, i as int);
                }
            }
            if mark.gen_config {
                proof {
                    lemma_picked_takes(paths@, marks@, is_gen_config, i as int);
                }
                gen_config_path = Some(paths[i].clone());
            } else {
                proof {
                    lemma_picked_skips(paths@, marks@, is_gen_config, gen_config_path, i as int);
                }
            }
            i += 1;
        }
        assert(marks@.take(i as int) == marks@);
        match (encoder_path, decoder_path, tokenizer_config_path, gen_config_path) {
            (
                Some(encoder_path),
                Some(decoder_path),
                Some(tokenizer_config_path),
                Some(gen_config_path),
            ) => Ok(ModelDir { encoder_path, decoder_path, tokenizer_config_path, gen_config_path }),
            _ => Err(
                OcrError::Model(
                    String::from_str(
                        "Missing encoder, decoder model / tokenizer or generation config",
                    ),
                ),
            ),
        }
    }

    /// Picks the artifacts of a bundle out of its files: the encoder graph,
    /// the decoder graph, the tokenizer vocabulary and the generation
    /// configuration, each known by its file name. Where several files bear a
    /// name the last one counts. Fails exactly when one of the four is
    /// absent.
    pub fn new(paths: &[String]) -> (res: Result<ModelDir, OcrError>)
        ensures
            res is Ok <==> is_whole(all_marks_of(paths@)),
            res matches Ok(dir) ==> is_bundle(paths@, all_marks_of(paths@), dir),
            res matches Err(e) ==> (e matches OcrError::Model(text) && text@
                == "Missing encoder, decoder model / tokenizer or generation config"@),
    {
        let mut marks: Vec<ArtifactMarks> = Vec::new();
        let mut i: usize = 0;
        while i < paths.len()
            invariant
                i <= paths.len(),
                marks@ == all_marks_of(paths@).take(i as int),
            decreases paths.len() - i,
        {
            marks.push(classify(paths[i].as_str()));
            i += 1;
            assert(marks@ == all_marks_of(paths@).take(i as int));
        }
        assert(all_marks_of(paths@).take(i as int) == all_marks_of(paths@));
        ModelDir::assemble(paths, marks.as_slice())
    }
}

/// What a scan has picked for one artifact after reading `marks`: nothing
/// if the artifact is marked nowhere, else the last path marked as it.
pub open spec fn picked(
    paths: Seq<String>,
    marks: Seq<ArtifactMarks>,
    wanted: spec_fn(ArtifactMarks) -> bool,
    choice: Option<String>,
) -> bool {
    match choice {
        None => !is_marked(marks, wanted),
        Some(found) => is_pick(paths, marks, wanted, found),
    }
}

/// A file that is not marked leaves the pick as it is.
proof fn lemma_picked_skips(
    paths: Seq<String>,
    marks: Seq<ArtifactMarks>,
    wanted: spec_fn(ArtifactMarks) -> bool,
    choice: Option<String>,
    i: int,
)
    requires
        0 <= i < marks.len(),
        picked(paths, marks.take(i), wanted, choice),
        !wanted(marks[i]),
    ensures
        picked(paths, marks.take(i + 1), wanted, choice),
{
    let before = marks.take(i);
    let after = marks.take(i + 1);
    assert forall|j: int| 0 <= j < i implies after[j] == before[j] by {}
    match choice {
        None => {
            if is_marked(after, wanted) {
                let k = choose|k: int| 0 <= k < after.len() && wanted(#[trigger] after[k]);
                assert(wanted(before[k]));
            }
        },
        Some(found) => {
            let k = choose|k: int| #[trigger] is_last_marked(before, wanted, k) && paths[k] == found;
            assert(wanted(after[k]));
            assert forall|j: int| k < j < after.len() implies !wanted(#[trigger] after[j]) by {
                if j < i {
                    assert(!wanted(before[j]));
                }
            }
            assert(is_last_marked(after, wanted, k));
        },
    }
}

/// A file that is marked becomes the pick.
proof fn lemma_picked_takes(
    paths: Seq<String>,
    marks: Seq<ArtifactMarks>,
    wanted: spec_fn(ArtifactMarks) -> bool,
    i: int,
)
    requires
        0 <= i < marks.len(),
        marks.len() == paths.len(),
        wanted(marks[i]),
    ensures
        picked(paths, marks.take(i + 1), wanted, Some(paths[i])),
{
    assert(is_last_marked(marks.take(i + 1), wanted, i));
}

/// `idx` is the position of the first name equal to `wanted`.
pub open spec fn is_first_named(names: Seq<String>, wanted: Seq<char>, idx: int) -> bool {
    &&& 0 <= idx < names.len()
    &&& names[idx]@ == wanted
    &&& forall|j: int| 0 <= j < idx ==> names[j]@ != wanted
}

/// Some name equals `wanted`.
pub open spec fn is_named(names: Seq<String>, wanted: Seq<char>) -> bool {
    exists|i: int| 0 <= i < names.len() && #[trigger] names[i]@ == wanted
}

/// The position of the output called `wanted` among the outputs a graph
/// produced. A graph without that output does not belong to the model: its
/// absence is a model error, never passed over.
pub fn required_output(names: &[String], wanted: &String) -> (res: Result<usize, OcrError>)
    ensures
        res is Ok <==> is_named(names@, wanted@),
        res matches Ok(idx) ==> is_first_named(names@, wanted@, idx as int),
        res matches Err(e) ==> (e matches OcrError::Model(text) && text@ == "Missing output: "@
            + wanted@),
{
    let mut i: usize = 0;
    while i < names.len()
        invariant
            i <= names.len(),
            forall|j: int| 0 <= j < i ==> names@[j]@ != wanted@,
        decreases names.len() - i,
    {
        if names[i] == *wanted {
            return Ok(i);
        }
        i += 1;
    }
    Err(OcrError::Model(String::from_str("Missing output: ").concat(wanted.as_str())))
}

/// The vocabulary's id for a token: the token cut to 32 bits, which leaves
/// every id of a vocabulary as it is.
pub open spec fn vocabulary_id(token: i64) -> u32 {
    #[verifier::truncate]
    (token as u32)
}

/// The vocabulary ids of a token sequence, in order.
pub fn token_ids(tokens: &Vec<i64>) -> (ids: Vec<u32>)
    ensures
        ids@ == tokens@.map_values(|t: i64| vocabulary_id(t)),
{
    let mut ids: Vec<u32> = Vec::new();
    let mut i: usize = 0;
    while i < tokens.len()
        invariant
            i <= tokens.len(),
            ids@.len() == i,
            forall|j: int| 0 <= j < i ==> ids@[j] == vocabulary_id(tokens@[j]),
        decreases tokens.len() - i,
    {
        ids.push(#[verifier::truncate] (tokens[i] as u32));
        i += 1;
    }
    assert(ids@ =~= tokens@.map_values(|t: i64| vocabulary_id(t)));
    ids
}

/// `text` with every space taken out.
pub open spec fn without_spaces(text: Seq<char>) -> Seq<char> {
    text.filter(|c: char| c != ' ')
}

/// Removes every occurrence of `unwanted` with `str::replace`: the result
/// is the text without those characters, the others in their order.
#[verifier::external_body]
fn remove_char(text: &str, unwanted: char) -> (out: String)
    ensures
        out@ == text@.filter(|c: char| c != unwanted),
{
    text.replace(unwanted, "")
}

/// `out` is the final result for what the tokenizer made of the tokens: the
/// decoded text without its spaces, or a tokenizer error where there is
/// none.
pub open spec fn finished(decoded: Option<String>, out: Result<String, OcrError>) -> bool {
    match decoded {
        Some(text) => out matches Ok(clean) && clean@ == without_spaces(text@),
        None => out matches Err(OcrError::Tokenizer(why)) && why@ == "Failed to decode"@,
    }
}

/// The final text for what the tokenizer made of the tokens: the decoded
/// text without its spaces, or a tokenizer error where there is none.
pub fn finish_text(decoded: Option<String>) -> (out: Result<String, OcrError>)
    ensures
        finished(decoded, out),
{
    match decoded {
        Some(text) => Ok(remove_char(text.as_str(), ' ')),
        None => Err(OcrError::Tokenizer(String::from_str("Failed to decode"))),
    }
}

/// No space is left in a text that they were taken out of.
pub proof fn lemma_without_spaces_has_none(text: Seq<char>)
    ensures
        !without_spaces(text).contains(' '),
{
    broadcast use vstd::seq_lib::group_filter_ensures;

    let pred = |c: char| c != ' ';
    if text.filter(pred).contains(' ') {
        let i = choose|i: int| 0 <= i < text.filter(pred).len() && text.filter(pred)[i] == ' ';
        assert(pred(text.filter(pred)[i]));
    }
}

/// `encode` may answer the preprocessed `img` with `reply`.
pub open spec fn encoded<H, E: Fn(&PixelTensor) -> Result<H, OcrError>>(
    encode: &E,
    img: RawImage,
    reply: Result<H, OcrError>,
) -> bool {
    exists|tensor: PixelTensor|
        tensor.view() == preprocessed(img) && #[trigger] call_ensures(*encode, (&tensor,), reply)
}

/// `detokenize` may make `text` of the vocabulary ids of `tokens`, special
/// tokens skipped.
pub open spec fn detokenized<T, D: Fn(&T, &Vec<u32>, bool) -> Option<String>>(
    detokenize: &D,
    tokenizer: &T,
    tokens: Seq<i64>,
    text: Option<String>,
) -> bool {
    exists|ids: Vec<u32>|
        ids@ == tokens.map_values(|t: i64| vocabulary_id(t)) && #[trigger] call_ensures(
            *detokenize,
            (tokenizer, &ids, true),
            text,
        )
}

/// `out` is what the run that follows the encoder's answer `reply` may end
/// in: the encoder's error as it is; else the error of the greedy loop as
/// it is; else the final result for what `detokenize` made of the loop's
/// tokens.
pub open spec fn continued<T, H, B, D>(
    cfg: GenerationConfig,
    tokenizer: &T,
    backend: &B,
    detokenize: &D,
    reply: Result<H, OcrError>,
    out: Result<String, OcrError>,
) -> bool where
    B: Fn(&H, &Vec<i64>) -> Result<Logits, OcrError>,
    D: Fn(&T, &Vec<u32>, bool) -> Option<String>,
 {
    match reply {
        Err(e) => out == Err::<String, OcrError>(e),
        Ok(hidden) => exists|run: Result<Seq<i64>, OcrError>|
            #[trigger] outcome_by(cfg, greedy_answers(backend, &hidden), run) && match run {
                Err(e) => out == Err::<String, OcrError>(e),
                Ok(tokens) => exists|text: Option<String>|
                    #[trigger] detokenized(detokenize, tokenizer, tokens, text) && finished(
                        text,
                        out,
                    ),
            },
    }
}

/// `out` is what recognizing `img` may end in: what follows some answer of
/// `encode` to the preprocessed image.
pub open spec fn recognized<T, H, E, B, D>(
    cfg: GenerationConfig,
    tokenizer: &T,
    encode: &E,
    backend: &B,
    detokenize: &D,
    img: RawImage,
    out: Result<String, OcrError>,
) -> bool where
    E: Fn(&PixelTensor) -> Result<H, OcrError>,
    B: Fn(&H, &Vec<i64>) -> Result<Logits, OcrError>,
    D: Fn(&T, &Vec<u32>, bool) -> Option<String>,
 {
    exists|reply: Result<H, OcrError>|
        #[trigger] encoded(encode, img, reply) && continued(
            cfg,
            tokenizer,
            backend,
            detokenize,
            reply,
            out,
        )
}

/// Where `encode` can only fail, recognizing ends in an error that `encode`
/// gave.
pub proof fn lemma_encoder_failure_returned<T, H, E, B, D>(
    cfg: GenerationConfig,
    tokenizer: &T,
    encode: &E,
    backend: &B,
    detokenize: &D,
    img: RawImage,
    out: Result<String, OcrError>,
) where
    E: Fn(&PixelTensor) -> Result<H, OcrError>,
    B: Fn(&H, &Vec<i64>) -> Result<Logits, OcrError>,
    D: Fn(&T, &Vec<u32>, bool) -> Option<String>,

    requires
        recognized(cfg, tokenizer, encode, backend, detokenize, img, out),
        forall|reply: Result<H, OcrError>| #[trigger] encoded(encode, img, reply) ==> reply is Err,
    ensures
        out is Err,
        encoded(encode, img, Err::<H, OcrError>(out->Err_0)),
{
    let reply = choose|reply: Result<H, OcrError>|
        #[trigger] encoded(encode, img, reply) && continued(
            cfg,
            tokenizer,
            backend,
            detokenize,
            reply,
            out,
        );
    assert(reply == Err::<H, OcrError>(out->Err_0));
}

/// A text that recognizing returns is what `detokenize` made of the tokens
/// of a halted greedy run, without its spaces; the run was conditioned on a
/// hidden state that `encode` gave for the image.
pub proof fn lemma_text_comes_from_run<T, H, E, B, D>(
    cfg: GenerationConfig,
    tokenizer: &T,
    encode: &E,
    backend: &B,
    detokenize: &D,
    img: RawImage,
    text: String,
) where
    E: Fn(&PixelTensor) -> Result<H, OcrError>,
    B: Fn(&H, &Vec<i64>) -> Result<Logits, OcrError>,
    D: Fn(&T, &Vec<u32>, bool) -> Option<String>,

    requires
        recognized(cfg, tokenizer, encode, backend, detokenize, img, Ok(text)),
    ensures
        exists|hidden: H, tokens: Seq<i64>, decoded: String|
            {
                &&& #[trigger] encoded(encode, img, Ok::<H, OcrError>(hidden))
                &&& #[trigger] outcome_by(
                    cfg,
                    greedy_answers(backend, &hidden),
                    Ok::<Seq<i64>, OcrError>(tokens),
                )
                &&& #[trigger] detokenized(detokenize, tokenizer, tokens, Some(decoded))
                &&& text@ == without_spaces(decoded@)
            },
{
    let out = Ok::<String, OcrError>(text);
    let reply = choose|reply: Result<H, OcrError>|
        #[trigger] encoded(encode, img, reply) && continued(
            cfg,
            tokenizer,
            backend,
            detokenize,
            reply,
            out,
        );
    let hidden = reply->Ok_0;
    let run = choose|run: Result<Seq<i64>, OcrError>|
        #[trigger] outcome_by(cfg, greedy_answers(backend, &hidden), run) && match run {
            Err(e) => out == Err::<String, OcrError>(e),
            Ok(tokens) => exists|text: Option<String>|
                #[trigger] detokenized(detokenize, tokenizer, tokens, text) && finished(text, out),
        };
    let tokens = run->Ok_0;
    let decoded = choose|decoded: Option<String>|
        #[trigger] detokenized(detokenize, tokenizer, tokens, decoded) && finished(decoded, out);
    assert(encoded(encode, img, Ok::<H, OcrError>(hidden)));
    assert(detokenized(detokenize, tokenizer, tokens, Some(decoded->0)));
}

/// A recognizer: the decoding policy and the tokenizer.
///
/// The two networks and the detokenization are capabilities that each call
/// of `run` is given. The tokenizer is held and handed to the
/// detokenization as it is: what a tokenizer makes of ids is decided by the
/// vocabulary document it was loaded from, which the library does not read.
pub struct OCRModel<T> {
    decoder: Decoder,
    tokenizer: T,
}

impl<T> OCRModel<T> {
    /// The decoder this model runs.
    pub closed spec fn decoder(&self) -> Decoder {
        self.decoder
    }

    /// The tokenizer this model holds.
    pub closed spec fn tokenizer(&self) -> T {
        self.tokenizer
    }

    /// A recognizer from a loaded tokenizer and a complete policy.
    pub fn new(tokenizer: T, gen_config: GenerationConfig) -> (model: OCRModel<T>)
        ensures
            model.decoder().config() == gen_config,
            model.tokenizer() == tokenizer,
    {
        OCRModel { decoder: Decoder::new(gen_config), tokenizer }
    }

    /// A recognizer from what loading the vocabulary gave (`None` where it
    /// failed) and the fields of a configuration document.
    ///
    /// The vocabulary is looked at first: without a tokenizer the result is
    /// a tokenizer error. Then the configuration is built: an absent field
    /// is a configuration error that names the first such field. A
    /// recognizer is handed out exactly when there is a tokenizer and every
    /// field, never with a partial configuration.
    pub fn load(tokenizer: Option<T>, fields: ConfigFields) -> (res: Result<OCRModel<T>, OcrError>)
        ensures
            res is Ok <==> tokenizer is Some && fields.complete(),
            res matches Ok(model) ==> {
                &&& model.tokenizer() == tokenizer->0
                &&& configured(fields, model.decoder().config())
            },
            tokenizer is None ==> (res matches Err(OcrError::Tokenizer(why)) && why@
                == "Failed to load tokenizer"@),
            tokenizer is Some && !fields.complete() ==> (res matches Err(OcrError::Config(cause))
                && fields.first_missing() == Some(cause.field())),
    {
        let tokenizer = match tokenizer {
            Some(tokenizer) => tokenizer,
            None => {
                return Err(OcrError::Tokenizer(String::from_str("Failed to load tokenizer")));
            },
        };
        match GenerationConfig::from_fields(fields) {
            Ok(gen_config) => Ok(OCRModel::new(tokenizer, gen_config)),
            Err(cause) => Err(OcrError::Config(cause)),
        }
    }

    /// Recognizes the text in `img`.
    ///
    /// The image is preprocessed and handed to `encode`. The hidden state
    /// that comes back conditions the greedy loop over `backend`. The
    /// vocabulary ids of the loop's tokens are handed to `detokenize` with
    /// the tokenizer, special tokens to be skipped. The spaces are taken out
    /// of the text.
    ///
    /// An error of `encode` or of the loop is returned as it is, and nothing
    /// later is called; tokens gathered before an error are dropped. A
    /// failure of `detokenize` is a tokenizer error.
    pub fn run<H, E, B, D>(&self, img: &RawImage, encode: &E, backend: &B, detokenize: &D) -> (out:
        Result<String, OcrError>) where
        E: Fn(&PixelTensor) -> Result<H, OcrError>,
        B: Fn(&H, &Vec<i64>) -> Result<Logits, OcrError>,
        D: Fn(&T, &Vec<u32>, bool) -> Option<String>,

        requires
            forall|tensor: PixelTensor|
                tensor.view() == preprocessed(*img) ==> call_requires(*encode, (&tensor,)),
            forall|hidden: H, ids: Vec<i64>|
                ids@.len() >= 1 ==> call_requires(*backend, (&hidden, &ids)),
            forall|ids: Vec<u32>| call_requires(*detokenize, (&self.tokenizer(), &ids, true)),
        ensures
            recognized(
                self.decoder().config(),
                &self.tokenizer(),
                encode,
                backend,
                detokenize,
                *img,
                out,
            ),
    {
        let tensor = preprocess_image(img);
        let reply = encode(&tensor);
        assert(encoded(encode, *img, reply));
        let hidden = match reply {
            Ok(hidden) => hidden,
            Err(e) => {
                return Err(e);
            },
        };
        let run = self.decoder.decode_logits(&hidden, backend);
        let tokens = match run {
            Ok(tokens) => tokens,
            Err(e) => {
                assert(outcome_by(
                    self.decoder().config(),
                    greedy_answers(backend, &hidden),
                    Err::<Seq<i64>, OcrError>(e),
                ));
                return Err(e);
            },
        };
        assert(outcome_by(
            self.decoder().config(),
            greedy_answers(backend, &hidden),
            Ok::<Seq<i64>, OcrError>(tokens@),
        ));
        let ids = token_ids(&tokens);
        assert(call_requires(*detokenize, (&self.tokenizer(), &ids, true)));
        let text = detokenize(&self.tokenizer, &ids, true);
        assert(detokenized(detokenize, &self.tokenizer(), tokens@, text));
        finish_text(text)
    }
}

/// `cfg` holds what the fields give.
pub open spec fn configured(fields: ConfigFields, cfg: GenerationConfig) -> bool {
    &&& cfg.decoder_start_token_id == fields.decoder_start_token_id->0
    &&& cfg.early_stopping == fields.early_stopping->0
    &&& cfg.eos_token_id == fields.eos_token_id->0
    &&& cfg.length_penalty_bits == fields.length_penalty_bits->0
    &&& cfg.max_length == fields.max_length->0
    &&& cfg.no_repeat_ngram_size == fields.no_repeat_ngram_size->0
    &&& cfg.num_beams == fields.num_beams->0
    &&& cfg.pad_token_id == fields.pad_token_id->0
    &&& cfg.transformers_version == fields.transformers_version->0
}

} // verus!
