//! The generation policy that steers decoding.

use vstd::prelude::*;

verus! {

/// Decoding policy, fixed once all of its fields are known.
///
/// The greedy decoder reads `decoder_start_token_id`, `eos_token_id`,
/// `no_repeat_ngram_size` and `max_length`. The other fields are carried
/// along and not honoured.
#[derive(Debug, Clone)]
pub struct GenerationConfig {
    pub decoder_start_token_id: u32,
    pub early_stopping: bool,
    pub eos_token_id: u32,
    /// Bit pattern of the single-precision length penalty.
    pub length_penalty_bits: u32,
    pub max_length: u32,
    pub no_repeat_ngram_size: u32,
    pub num_beams: u32,
    pub pad_token_id: u32,
    pub transformers_version: String,
}

/// What a configuration document held, field by field: `None` where the
/// document had no usable entry under that name.
#[derive(Debug, Clone)]
pub struct ConfigFields {
    pub decoder_start_token_id: Option<u32>,
    pub early_stopping: Option<bool>,
    pub eos_token_id: Option<u32>,
    pub length_penalty_bits: Option<u32>,
    pub max_length: Option<u32>,
    pub no_repeat_ngram_size: Option<u32>,
    pub num_beams: Option<u32>,
    pub pad_token_id: Option<u32>,
    pub transformers_version: Option<String>,
}

/// The fields of a configuration document, in the order in which they are
/// checked.
#[derive(Debug, Clone, Copy, PartialEq, Eq, Structural)]
pub enum ConfigField {
    DecoderStartTokenId,
    EarlyStopping,
    EosTokenId,
    LengthPenalty,
    MaxLength,
    NoRepeatNgramSize,
    NumBeams,
    PadTokenId,
    TransformersVersion,
}

/// Why a configuration could not be built.
#[derive(Debug, Clone, Copy, PartialEq, Eq, Structural)]
pub enum ConfigError {
    /// The named field is absent.
    MissingField(ConfigField),
}

impl ConfigField {
    /// The key under which the field stands in a configuration document.
    pub fn name(&self) -> (s: &'static str)
        ensures
            s@ == self.spec_name(),
    {
        match self {
            ConfigField::DecoderStartTokenId => "decoder_start_token_id",
            ConfigField::EarlyStopping => "early_stopping",
            ConfigField::EosTokenId => "eos_token_id",
            ConfigField::LengthPenalty => "length_penalty",
            ConfigField::MaxLength => "max_length",
            ConfigField::NoRepeatNgramSize => "no_repeat_ngram_size",
            ConfigField::NumBeams => "num_beams",
            ConfigField::PadTokenId => "pad_token_id",
            ConfigField::TransformersVersion => "transformers_version",
        }
    }

    pub open spec fn spec_name(&self) -> Seq<char> {
        match self {
            ConfigField::DecoderStartTokenId => "decoder_start_token_id"@,
            ConfigField::EarlyStopping => "early_stopping"@,
            ConfigField::EosTokenId => "eos_token_id"@,
            ConfigField::LengthPenalty => "length_penalty"@,
            ConfigField::MaxLength => "max_length"@,
            ConfigField::NoRepeatNgramSize => "no_repeat_ngram_size"@,
            ConfigField::NumBeams => "num_beams"@,
            ConfigField::PadTokenId => "pad_token_id"@,
            ConfigField::TransformersVersion => "transformers_version"@,
        }
    }
}

impl ConfigError {
    /// A one-line description of the error.
    pub fn message(&self) -> (s: String)
        ensures
            s@ == "missing field: "@ + self.field().spec_name(),
    {
        let ConfigError::MissingField(field) = self;
        String::from_str("missing field: ").concat(field.name())
    }

    /// The field the error is about.
    pub open spec fn field(&self) -> ConfigField {
        match self {
            ConfigError::MissingField(f) => *f,
        }
    }
}

impl ConfigFields {
    /// The first absent field in checking order, if any.
    pub open spec fn first_missing(&self) -> Option<ConfigField> {
        if self.decoder_start_token_id is None {
            Some(ConfigField::DecoderStartTokenId)
        } else if self.early_stopping is None {
            Some(ConfigField::EarlyStopping)
        } else if self.eos_token_id is None {
            Some(ConfigField::EosTokenId)
        } else if self.length_penalty_bits is None {
            Some(ConfigField::LengthPenalty)
        } else if self.max_length is None {
            Some(ConfigField::MaxLength)
        } else if self.no_repeat_ngram_size is None {
            Some(ConfigField::NoRepeatNgramSize)
        } else if self.num_beams is None {
            Some(ConfigField::NumBeams)
        } else if self.pad_token_id is None {
            Some(ConfigField::PadTokenId)
        } else if self.transformers_version is None {
            Some(ConfigField::TransformersVersion)
        } else {
            None
        }
    }

    /// Every field is present.
    pub open spec fn complete(&self) -> bool {
        self.first_missing() is None
    }
}

impl GenerationConfig {
    /// Builds the configuration from the fields of a document.
    ///
    /// Succeeds exactly when every field is present, and then copies each of
    /// them. Otherwise the error names the first absent field; no
    /// configuration with gaps is ever handed out.
    pub fn from_fields(fields: ConfigFields) -> (res: Result<GenerationConfig, ConfigError>)
        ensures
            res is Ok <==> fields.complete(),
            res matches Ok(cfg) ==> {
                &&& cfg.decoder_start_token_id == fields.decoder_start_token_id->0
                &&& cfg.early_stopping == fields.early_stopping->0
                &&& cfg.eos_token_id == fields.eos_token_id->0
                &&& cfg.length_penalty_bits == fields.length_penalty_bits->0
                &&& cfg.max_length == fields.max_length->0
                &&& cfg.no_repeat_ngram_size == fields.no_repeat_ngram_size->0
                &&& cfg.num_beams == fields.num_beams->0
                &&& cfg.pad_token_id == fields.pad_token_id->0
                &&& cfg.transformers_version == fields.transformers_version->0
            },
            res matches Err(e) ==> fields.first_missing() == Some(e.field()),
    {
        let decoder_start_token_id = match fields.decoder_start_token_id {
            Some(v) => v,
            None => return Err(ConfigError::MissingField(ConfigField::DecoderStartTokenId)),
        };
        let early_stopping = match fields.early_stopping {
            Some(v) => v,
            None => return Err(ConfigError::MissingField(ConfigField::EarlyStopping)),
        };
        let eos_token_id = match fields.eos_token_id {
            Some(v) => v,
            None => return Err(ConfigError::MissingField(ConfigField::EosTokenId)),
        };
        let length_penalty_bits = match fields.length_penalty_bits {
            Some(v) => v,
            None => return Err(ConfigError::MissingField(ConfigField::LengthPenalty)),
        };
        let max_length = match fields.max_length {
            Some(v) => v,
            None => return Err(ConfigError::MissingField(ConfigField::MaxLength)),
        };
        let no_repeat_ngram_size = match fields.no_repeat_ngram_size {
            Some(v) => v,
            None => return Err(ConfigError::MissingField(ConfigField::NoRepeatNgramSize)),
        };
        let num_beams = match fields.num_beams {
            Some(v) => v,
            None => return Err(ConfigError::MissingField(ConfigField::NumBeams)),
        };
        let pad_token_id = match fields.pad_token_id {
            Some(v) => v,
            None => return Err(ConfigError::MissingField(ConfigField::PadTokenId)),
        };
        let transformers_version = match fields.transformers_version {
            Some(v) => v,
            None => return Err(ConfigError::MissingField(ConfigField::TransformersVersion)),
        };
        Ok(
            GenerationConfig {
                decoder_start_token_id,
                early_stopping,
                eos_token_id,
                length_penalty_bits,
                max_length,
                no_repeat_ngram_size,
                num_beams,
                pad_token_id,
                transformers_version,
            },
        )
    }
}

} // verus!
