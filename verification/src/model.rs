use vstd::prelude::*;

use crate::json::{Json, JsonV};

verus! {

/// An error reported to the host.
#[derive(Debug)]
pub struct PluginError {
    pub code: String,
    pub message: String,
    pub retryable: bool,
}

/// Mathematical model of a [`PluginError`].
pub struct ErrorV {
    pub code: Seq<char>,
    pub message: Seq<char>,
    pub retryable: bool,
}

impl View for PluginError {
    type V = ErrorV;

    open spec fn view(&self) -> ErrorV {
        ErrorV { code: self.code@, message: self.message@, retryable: self.retryable }
    }
}

impl PluginError {
    pub fn new(code: &str, message: &str, retryable: bool) -> (r: PluginError)
        ensures
            r@ == (ErrorV { code: code@, message: message@, retryable }),
    {
        PluginError { code: code.to_owned(), message: message.to_owned(), retryable }
    }
}

/// A reasoning effort level.
#[derive(Clone, Copy, Debug, PartialEq, Eq, Structural)]
pub enum ReasoningLevel {
    Minimal,
    Low,
    Medium,
    High,
    Xhigh,
}

/// The way a model's reasoning is controlled.
#[derive(Clone, Copy, Debug, PartialEq, Eq, Structural)]
pub enum ReasoningMode {
    /// Reasoning is chosen among named levels.
    Level,
}

/// The level that a level name stands for, if any.
pub open spec fn level_named(name: Seq<char>) -> Option<ReasoningLevel> {
    if name == "minimal"@ {
        Some(ReasoningLevel::Minimal)
    } else if name == "low"@ {
        Some(ReasoningLevel::Low)
    } else if name == "medium"@ {
        Some(ReasoningLevel::Medium)
    } else if name == "high"@ {
        Some(ReasoningLevel::High)
    } else if name == "xhigh"@ {
        Some(ReasoningLevel::Xhigh)
    } else {
        None
    }
}

/// Each level is named by its own lower-case word, and no other word names a level.
pub proof fn law_level_names()
    ensures
        level_named("minimal"@) == Some(ReasoningLevel::Minimal),
        level_named("low"@) == Some(ReasoningLevel::Low),
        level_named("medium"@) == Some(ReasoningLevel::Medium),
        level_named("high"@) == Some(ReasoningLevel::High),
        level_named("xhigh"@) == Some(ReasoningLevel::Xhigh),
        forall|name: Seq<char>|
            #[trigger] level_named(name) is Some ==> name == "minimal"@ || name == "low"@ || name
                == "medium"@ || name == "high"@ || name == "xhigh"@,
{
    reveal_strlit("minimal");
    reveal_strlit("low");
    reveal_strlit("medium");
    reveal_strlit("high");
    reveal_strlit("xhigh");
    assert("low"@ != "minimal"@) by {
        assert("low"@.len() != "minimal"@.len());
    }
    assert("medium"@ != "minimal"@) by {
        assert("medium"@[1] != "minimal"@[1]);
    }
    assert("medium"@ != "low"@) by {
        assert("medium"@.len() != "low"@.len());
    }
    assert("high"@ != "minimal"@) by {
        assert("high"@.len() != "minimal"@.len());
    }
    assert("high"@ != "low"@) by {
        assert("high"@.len() != "low"@.len());
    }
    assert("high"@ != "medium"@) by {
        assert("high"@.len() != "medium"@.len());
    }
    assert("xhigh"@ != "minimal"@) by {
        assert("xhigh"@.len() != "minimal"@.len());
    }
    assert("xhigh"@ != "low"@) by {
        assert("xhigh"@.len() != "low"@.len());
    }
    assert("xhigh"@ != "medium"@) by {
        assert("xhigh"@.len() != "medium"@.len());
    }
    assert("xhigh"@ != "high"@) by {
        assert("xhigh"@.len() != "high"@.len());
    }
}

impl ReasoningLevel {
    /// The level named `name`.
    pub fn parse(name: &str) -> (r: Option<ReasoningLevel>)
        ensures
            r == level_named(name@),
    {
        if crate::text::str_eq(name, "minimal") {
            Some(ReasoningLevel::Minimal)
        } else if crate::text::str_eq(name, "low") {
            Some(ReasoningLevel::Low)
        } else if crate::text::str_eq(name, "medium") {
            Some(ReasoningLevel::Medium)
        } else if crate::text::str_eq(name, "high") {
            Some(ReasoningLevel::High)
        } else if crate::text::str_eq(name, "xhigh") {
            Some(ReasoningLevel::Xhigh)
        } else {
            None
        }
    }
}

/// The wire format through which a model is reached.
#[derive(Debug)]
pub struct TransportCapability {
    pub format: String,
}

/// What is known of a model's reasoning.
#[derive(Debug)]
pub struct ReasoningCapability {
    pub supported: bool,
    pub mode: Option<ReasoningMode>,
    pub levels: Option<Vec<ReasoningLevel>>,
    pub default: Option<ReasoningLevel>,
    pub can_disable: Option<bool>,
}

/// Whether a model supports a feature.
#[derive(Debug)]
pub struct SupportCapability {
    pub supported: bool,
}

/// Whether a model takes image input.
#[derive(Debug)]
pub struct VisionCapability {
    pub input: bool,
}

/// What is known of a model's capabilities; `None` stands for unknown.
#[derive(Debug)]
pub struct ModelCapabilitiesV1 {
    pub schema_version: u32,
    pub transport: Option<TransportCapability>,
    pub reasoning: Option<ReasoningCapability>,
    pub tools: Option<SupportCapability>,
    pub vision: Option<VisionCapability>,
    pub structured_output: Option<SupportCapability>,
}

/// Mathematical model of a [`ReasoningCapability`].
pub struct ReasoningV {
    pub supported: bool,
    pub mode: Option<ReasoningMode>,
    pub levels: Option<Seq<ReasoningLevel>>,
    pub default: Option<ReasoningLevel>,
    pub can_disable: Option<bool>,
}

/// Mathematical model of [`ModelCapabilitiesV1`]: the transport by its format, and each
/// yes/no capability by its flag.
pub struct CapabilitiesV {
    pub schema_version: u32,
    pub transport: Option<Seq<char>>,
    pub reasoning: Option<ReasoningV>,
    pub tools: Option<bool>,
    pub vision: Option<bool>,
    pub structured_output: Option<bool>,
}

impl View for ReasoningCapability {
    type V = ReasoningV;

    open spec fn view(&self) -> ReasoningV {
        ReasoningV {
            supported: self.supported,
            mode: self.mode,
            levels: match self.levels {
                Some(l) => Some(l@),
                None => None,
            },
            default: self.default,
            can_disable: self.can_disable,
        }
    }
}

impl View for ModelCapabilitiesV1 {
    type V = CapabilitiesV;

    open spec fn view(&self) -> CapabilitiesV {
        CapabilitiesV {
            schema_version: self.schema_version,
            transport: match self.transport {
                Some(t) => Some(t.format@),
                None => None,
            },
            reasoning: match self.reasoning {
                Some(r) => Some(r@),
                None => None,
            },
            tools: match self.tools {
                Some(t) => Some(t.supported),
                None => None,
            },
            vision: match self.vision {
                Some(v) => Some(v.input),
                None => None,
            },
            structured_output: match self.structured_output {
                Some(s) => Some(s.supported),
                None => None,
            },
        }
    }
}

/// Reasoning that is supported, with nothing more known of it.
pub open spec fn reasoning_supported_unknown() -> ReasoningV {
    ReasoningV { supported: true, mode: None, levels: None, default: None, can_disable: None }
}

/// Reasoning that is not supported.
pub open spec fn reasoning_unsupported() -> ReasoningV {
    ReasoningV { supported: false, mode: None, levels: None, default: None, can_disable: None }
}

/// Capabilities of which only the transport is known.
pub open spec fn capabilities_with_transport(format: Seq<char>) -> CapabilitiesV {
    CapabilitiesV {
        schema_version: 1,
        transport: Some(format),
        reasoning: None,
        tools: None,
        vision: None,
        structured_output: None,
    }
}

impl ReasoningCapability {
    pub fn supported_unknown() -> (r: ReasoningCapability)
        ensures
            r@ == reasoning_supported_unknown(),
    {
        ReasoningCapability {
            supported: true,
            mode: None,
            levels: None,
            default: None,
            can_disable: None,
        }
    }

    pub fn unsupported() -> (r: ReasoningCapability)
        ensures
            r@ == reasoning_unsupported(),
    {
        ReasoningCapability {
            supported: false,
            mode: None,
            levels: None,
            default: None,
            can_disable: None,
        }
    }
}

impl ModelCapabilitiesV1 {
    /// Capabilities reached through `format`, everything else unknown.
    pub fn with_transport(format: &str) -> (r: ModelCapabilitiesV1)
        ensures
            r@ == capabilities_with_transport(format@),
    {
        ModelCapabilitiesV1 {
            schema_version: 1,
            transport: Some(TransportCapability { format: format.to_owned() }),
            reasoning: None,
            tools: None,
            vision: None,
            structured_output: None,
        }
    }
}

/// A model found by discovery.
#[derive(Debug)]
pub struct DiscoveredModel {
    pub id: String,
    pub display_name: Option<String>,
    pub context_window: Option<u64>,
    pub max_output_tokens: Option<u64>,
    pub capabilities: ModelCapabilitiesV1,
    /// The provider's own entry for the model, as it was listed.
    pub raw_metadata: Json,
}

/// Mathematical model of a [`DiscoveredModel`].
pub struct ModelV {
    pub id: Seq<char>,
    pub display_name: Option<Seq<char>>,
    pub context_window: Option<u64>,
    pub max_output_tokens: Option<u64>,
    pub capabilities: CapabilitiesV,
    pub raw_metadata: JsonV,
}

impl View for DiscoveredModel {
    type V = ModelV;

    open spec fn view(&self) -> ModelV {
        ModelV {
            id: self.id@,
            display_name: match self.display_name {
                Some(n) => Some(n@),
                None => None,
            },
            context_window: self.context_window,
            max_output_tokens: self.max_output_tokens,
            capabilities: self.capabilities@,
            raw_metadata: self.raw_metadata@,
        }
    }
}

/// The models of a list of discovered models, in order.
pub open spec fn models_view(models: Seq<DiscoveredModel>) -> Seq<ModelV> {
    models.map_values(|m: DiscoveredModel| m@)
}

} // verus!
