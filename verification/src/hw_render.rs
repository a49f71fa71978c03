//! Hardware-render context requests and the negotiation of a context with the
//! frontend from a list of candidates.

use crate::raw::retro_hw_context_type;
use crate::text::{push_str, spec_decimal, u32_to_decimal};
use vstd::prelude::*;

verus! {

pub type HwContextType = retro_hw_context_type;

/// Hardware-rendering context request sent to the frontend.
#[derive(Clone, Copy, Debug, PartialEq, Eq, Structural)]
pub struct HwRenderConfig {
    pub context_type: HwContextType,
    pub depth: bool,
    pub stencil: bool,
    pub bottom_left_origin: bool,
    pub version_major: u32,
    pub version_minor: u32,
    pub cache_context: bool,
    pub debug_context: bool,
}

impl Default for HwRenderConfig {
    /// No context, every option off, version 0.0.
    fn default() -> (config: Self)
        ensures
            config == HwRenderConfig::spec_new(retro_hw_context_type::NoContext),
    {
        HwRenderConfig::new(retro_hw_context_type::NoContext)
    }
}

impl HwRenderConfig {
    pub open spec fn spec_new(context_type: HwContextType) -> HwRenderConfig {
        HwRenderConfig {
            context_type,
            depth: false,
            stencil: false,
            bottom_left_origin: false,
            version_major: 0,
            version_minor: 0,
            cache_context: false,
            debug_context: false,
        }
    }

    /// A request for `context_type` with every option off and version 0.0.
    pub fn new(context_type: HwContextType) -> (config: Self)
        ensures
            config == Self::spec_new(context_type),
    {
        HwRenderConfig {
            context_type,
            depth: false,
            stencil: false,
            bottom_left_origin: false,
            version_major: 0,
            version_minor: 0,
            cache_context: false,
            debug_context: false,
        }
    }

    /// A compatibility-profile OpenGL request.
    pub fn opengl() -> (config: Self)
        ensures
            config == Self::spec_new(retro_hw_context_type::OpenGl),
    {
        Self::new(retro_hw_context_type::OpenGl)
    }

    /// A core-profile OpenGL request for the given version.
    pub fn opengl_core(version_major: u32, version_minor: u32) -> (config: Self)
        ensures
            config == (HwRenderConfig {
                version_major,
                version_minor,
                ..Self::spec_new(retro_hw_context_type::OpenGlCore)
            }),
    {
        Self::new(retro_hw_context_type::OpenGlCore).with_version(version_major, version_minor)
    }

    /// An OpenGL ES 2 request.
    pub fn opengles2() -> (config: Self)
        ensures
            config == Self::spec_new(retro_hw_context_type::OpenGlEs2),
    {
        Self::new(retro_hw_context_type::OpenGlEs2)
    }

    /// An OpenGL ES 3 request.
    pub fn opengles3() -> (config: Self)
        ensures
            config == Self::spec_new(retro_hw_context_type::OpenGlEs3),
    {
        Self::new(retro_hw_context_type::OpenGlEs3)
    }

    /// An OpenGL ES request for the given version.
    pub fn opengles_version(version_major: u32, version_minor: u32) -> (config: Self)
        ensures
            config == (HwRenderConfig {
                version_major,
                version_minor,
                ..Self::spec_new(retro_hw_context_type::OpenGlEsVersion)
            }),
    {
        Self::new(retro_hw_context_type::OpenGlEsVersion).with_version(
            version_major,
            version_minor,
        )
    }

    pub fn with_depth(self, depth: bool) -> (config: Self)
        ensures
            config == (HwRenderConfig { depth, ..self }),
    {
        HwRenderConfig { depth, ..self }
    }

    pub fn with_stencil(self, stencil: bool) -> (config: Self)
        ensures
            config == (HwRenderConfig { stencil, ..self }),
    {
        HwRenderConfig { stencil, ..self }
    }

    pub fn with_bottom_left_origin(self, bottom_left_origin: bool) -> (config: Self)
        ensures
            config == (HwRenderConfig { bottom_left_origin, ..self }),
    {
        HwRenderConfig { bottom_left_origin, ..self }
    }

    pub fn with_version(self, version_major: u32, version_minor: u32) -> (config: Self)
        ensures
            config == (HwRenderConfig { version_major, version_minor, ..self }),
    {
        HwRenderConfig { version_major, version_minor, ..self }
    }

    pub fn with_cache_context(self, cache_context: bool) -> (config: Self)
        ensures
            config == (HwRenderConfig { cache_context, ..self }),
    {
        HwRenderConfig { cache_context, ..self }
    }

    pub fn with_debug_context(self, debug_context: bool) -> (config: Self)
        ensures
            config == (HwRenderConfig { debug_context, ..self }),
    {
        HwRenderConfig { debug_context, ..self }
    }
}

/// The context the frontend prefers, and whether it accepts any other.
#[derive(Clone, Copy, Debug, PartialEq, Eq, Structural)]
pub struct PreferredHwRender {
    pub context_type: HwContextType,
    pub supports_non_preferred_context: bool,
}

pub open spec fn spec_is_opengl_family(context_type: HwContextType) -> bool {
    match context_type {
        retro_hw_context_type::OpenGl
        | retro_hw_context_type::OpenGlCore
        | retro_hw_context_type::OpenGlEs2
        | retro_hw_context_type::OpenGlEs3
        | retro_hw_context_type::OpenGlEsVersion => true,
        _ => false,
    }
}

pub open spec fn spec_is_opengl_es_family(context_type: HwContextType) -> bool {
    match context_type {
        retro_hw_context_type::OpenGlEs2
        | retro_hw_context_type::OpenGlEs3
        | retro_hw_context_type::OpenGlEsVersion => true,
        _ => false,
    }
}

impl retro_hw_context_type {
    /// Whether this is one of the OpenGL or OpenGL ES context kinds.
    pub fn is_opengl_family(self) -> (family: bool)
        ensures
            family == spec_is_opengl_family(self),
    {
        match self {
            retro_hw_context_type::OpenGl
            | retro_hw_context_type::OpenGlCore
            | retro_hw_context_type::OpenGlEs2
            | retro_hw_context_type::OpenGlEs3
            | retro_hw_context_type::OpenGlEsVersion => true,
            _ => false,
        }
    }
}

/// Whether `context_type` is one of the OpenGL ES context kinds.
pub fn is_opengl_es_family(context_type: HwContextType) -> (family: bool)
    ensures
        family == spec_is_opengl_es_family(context_type),
{
    match context_type {
        retro_hw_context_type::OpenGlEs2
        | retro_hw_context_type::OpenGlEs3
        | retro_hw_context_type::OpenGlEsVersion => true,
        _ => false,
    }
}

/// The name a log line uses for a context kind.
pub open spec fn spec_context_name(context_type: HwContextType) -> Seq<char> {
    match context_type {
        retro_hw_context_type::NoContext => "None"@,
        retro_hw_context_type::OpenGl => "OpenGl"@,
        retro_hw_context_type::OpenGlEs2 => "OpenGlEs2"@,
        retro_hw_context_type::OpenGlCore => "OpenGlCore"@,
        retro_hw_context_type::OpenGlEs3 => "OpenGlEs3"@,
        retro_hw_context_type::OpenGlEsVersion => "OpenGlEsVersion"@,
        retro_hw_context_type::Vulkan => "Vulkan"@,
        retro_hw_context_type::D3d11 => "D3d11"@,
        retro_hw_context_type::D3d10 => "D3d10"@,
        retro_hw_context_type::D3d12 => "D3d12"@,
        retro_hw_context_type::D3d9 => "D3d9"@,
    }
}

/// The name a log line uses for a context kind.
pub fn context_name(context_type: HwContextType) -> (name: &'static str)
    ensures
        name@ == spec_context_name(context_type),
{
    match context_type {
        retro_hw_context_type::NoContext => {
            proof {
                reveal_strlit("None");
            }
            "None"
        },
        retro_hw_context_type::OpenGl => {
            proof {
                reveal_strlit("OpenGl");
            }
            "OpenGl"
        },
        retro_hw_context_type::OpenGlEs2 => {
            proof {
                reveal_strlit("OpenGlEs2");
            }
            "OpenGlEs2"
        },
        retro_hw_context_type::OpenGlCore => {
            proof {
                reveal_strlit("OpenGlCore");
            }
            "OpenGlCore"
        },
        retro_hw_context_type::OpenGlEs3 => {
            proof {
                reveal_strlit("OpenGlEs3");
            }
            "OpenGlEs3"
        },
        retro_hw_context_type::OpenGlEsVersion => {
            proof {
                reveal_strlit("OpenGlEsVersion");
            }
            "OpenGlEsVersion"
        },
        retro_hw_context_type::Vulkan => {
            proof {
                reveal_strlit("Vulkan");
            }
            "Vulkan"
        },
        retro_hw_context_type::D3d11 => {
            proof {
                reveal_strlit("D3d11");
            }
            "D3d11"
        },
        retro_hw_context_type::D3d10 => {
            proof {
                reveal_strlit("D3d10");
            }
            "D3d10"
        },
        retro_hw_context_type::D3d12 => {
            proof {
                reveal_strlit("D3d12");
            }
            "D3d12"
        },
        retro_hw_context_type::D3d9 => {
            proof {
                reveal_strlit("D3d9");
            }
            "D3d9"
        },
    }
}

/// The text a log line uses for a request: the context name, followed by
/// ` major.minor` unless the version is 0.0.
pub open spec fn spec_describe_hw_render_config(config: HwRenderConfig) -> Seq<char> {
    if config.version_major == 0 && config.version_minor == 0 {
        spec_context_name(config.context_type)
    } else {
        spec_context_name(config.context_type) + " "@ + spec_decimal(config.version_major as nat)
            + "."@ + spec_decimal(config.version_minor as nat)
    }
}

/// Describes a request for log lines.
pub fn describe_hw_render_config(config: HwRenderConfig) -> (text: String)
    ensures
        text@ == spec_describe_hw_render_config(config),
{
    let mut text = String::new();
    push_str(&mut text, context_name(config.context_type));
    if config.version_major == 0 && config.version_minor == 0 {
        return text;
    }
    let space = " ";
    let dot = ".";
    proof {
        reveal_strlit(" ");
        reveal_strlit(".");
    }
    push_str(&mut text, space);
    let major = u32_to_decimal(config.version_major);
    push_str(&mut text, major.as_str());
    push_str(&mut text, dot);
    let minor = u32_to_decimal(config.version_minor);
    push_str(&mut text, minor.as_str());
    text
}

/// The first candidate of the given context kind.
pub open spec fn spec_find_context(candidates: Seq<HwRenderConfig>, context_type: HwContextType)
    -> Option<HwRenderConfig>
    decreases candidates.len(),
{
    if candidates.len() == 0 {
        None
    } else if candidates[0].context_type == context_type {
        Some(candidates[0])
    } else {
        spec_find_context(candidates.drop_first(), context_type)
    }
}

/// The candidates of any other context kind, in their order.
pub open spec fn spec_other_contexts(candidates: Seq<HwRenderConfig>, context_type: HwContextType)
    -> Seq<HwRenderConfig>
    decreases candidates.len(),
{
    if candidates.len() == 0 {
        Seq::empty()
    } else if candidates[0].context_type == context_type {
        spec_other_contexts(candidates.drop_first(), context_type)
    } else {
        seq![candidates[0]] + spec_other_contexts(candidates.drop_first(), context_type)
    }
}

/// The OpenGL ES candidates not of the given context kind, in their order.
pub open spec fn spec_es_recovery_contexts(
    candidates: Seq<HwRenderConfig>,
    context_type: HwContextType,
) -> Seq<HwRenderConfig>
    decreases candidates.len(),
{
    if candidates.len() == 0 {
        Seq::empty()
    } else if spec_is_opengl_es_family(candidates[0].context_type) && candidates[0].context_type
        != context_type {
        seq![candidates[0]] + spec_es_recovery_contexts(candidates.drop_first(), context_type)
    } else {
        spec_es_recovery_contexts(candidates.drop_first(), context_type)
    }
}

/// The order in which candidates are offered to the frontend; the first one
/// it accepts is the negotiated context.
///
/// Without a preference every candidate is tried in order. With one, the
/// first candidate of the preferred kind goes first. If the frontend accepts
/// other kinds, every candidate of another kind follows. If it does not, no
/// other candidate is offered, except that a rejected generic OpenGL request
/// is followed by the OpenGL ES candidates, for frontends that only offer ES.
pub open spec fn spec_hw_render_plan(
    preferred: Option<PreferredHwRender>,
    candidates: Seq<HwRenderConfig>,
) -> Seq<HwRenderConfig> {
    match preferred {
        None => candidates,
        Some(p) => {
            let first = spec_find_context(candidates, p.context_type);
            let head = match first {
                Some(config) => seq![config],
                None => Seq::empty(),
            };
            let es_recovery = first is Some && p.context_type == retro_hw_context_type::OpenGl
                && !p.supports_non_preferred_context;
            let tail = if es_recovery {
                spec_es_recovery_contexts(candidates, p.context_type)
            } else if !p.supports_non_preferred_context {
                Seq::empty()
            } else {
                spec_other_contexts(candidates, p.context_type)
            };
            head + tail
        },
    }
}

proof fn lemma_find_context_step(candidates: Seq<HwRenderConfig>, context_type: HwContextType, i: int)
    requires
        0 <= i < candidates.len(),
        forall|j: int| 0 <= j < i ==> candidates[j].context_type != context_type,
    ensures
        spec_find_context(candidates, context_type) == spec_find_context(
            candidates.subrange(i, candidates.len() as int),
            context_type,
        ),
    decreases i,
{
    if i > 0 {
        assert(candidates.drop_first().subrange(i - 1, candidates.drop_first().len() as int)
            =~= candidates.subrange(i, candidates.len() as int));
        lemma_find_context_step(candidates.drop_first(), context_type, i - 1);
    } else {
        assert(candidates.subrange(0, candidates.len() as int) =~= candidates);
    }
}

proof fn lemma_find_context_none(candidates: Seq<HwRenderConfig>, context_type: HwContextType)
    requires
        forall|j: int| 0 <= j < candidates.len() ==> candidates[j].context_type != context_type,
    ensures
        spec_find_context(candidates, context_type) is None,
    decreases candidates.len(),
{
    if candidates.len() > 0 {
        lemma_find_context_none(candidates.drop_first(), context_type);
    }
}

proof fn lemma_other_contexts_push(
    candidates: Seq<HwRenderConfig>,
    context_type: HwContextType,
    i: int,
)
    requires
        0 <= i < candidates.len(),
    ensures
        spec_other_contexts(candidates.take(i + 1), context_type) == spec_other_contexts(
            candidates.take(i),
            context_type,
        ) + (if candidates[i].context_type == context_type {
            Seq::empty()
        } else {
            seq![candidates[i]]
        }),
    decreases i,
{
    let s = candidates.take(i + 1);
    if i > 0 {
        assert(s.drop_first() =~= candidates.drop_first().take(i));
        assert(candidates.take(i).drop_first() =~= candidates.drop_first().take(i - 1));
        lemma_other_contexts_push(candidates.drop_first(), context_type, i - 1);
    } else {
        assert(s.drop_first() =~= Seq::<HwRenderConfig>::empty());
        assert(candidates.take(0) =~= Seq::<HwRenderConfig>::empty());
    }
}

proof fn lemma_es_recovery_push(
    candidates: Seq<HwRenderConfig>,
    context_type: HwContextType,
    i: int,
)
    requires
        0 <= i < candidates.len(),
    ensures
        spec_es_recovery_contexts(candidates.take(i + 1), context_type)
            == spec_es_recovery_contexts(candidates.take(i), context_type) + (if spec_is_opengl_es_family(
            candidates[i].context_type,
        ) && candidates[i].context_type != context_type {
            seq![candidates[i]]
        } else {
            Seq::empty()
        }),
    decreases i,
{
    let s = candidates.take(i + 1);
    if i > 0 {
        assert(s.drop_first() =~= candidates.drop_first().take(i));
        assert(candidates.take(i).drop_first() =~= candidates.drop_first().take(i - 1));
        lemma_es_recovery_push(candidates.drop_first(), context_type, i - 1);
    } else {
        assert(s.drop_first() =~= Seq::<HwRenderConfig>::empty());
        assert(candidates.take(0) =~= Seq::<HwRenderConfig>::empty());
    }
}

fn find_context(candidates: &[HwRenderConfig], context_type: HwContextType) -> (found: Option<
    HwRenderConfig,
>)
    ensures
        found == spec_find_context(candidates@, context_type),
{
    let mut i: usize = 0;
    while i < candidates.len()
        invariant
            i <= candidates.len(),
            forall|j: int| 0 <= j < i ==> candidates@[j].context_type != context_type,
        decreases candidates.len() - i,
    {
        if candidates[i].context_type == context_type {
            proof {
                lemma_find_context_step(candidates@, context_type, i as int);
            }
            return Some(candidates[i]);
        }
        i = i + 1;
    }
    proof {
        lemma_find_context_none(candidates@, context_type);
    }
    None
}

fn other_contexts(candidates: &[HwRenderConfig], context_type: HwContextType) -> (others: Vec<
    HwRenderConfig,
>)
    ensures
        others@ == spec_other_contexts(candidates@, context_type),
{
    let mut others: Vec<HwRenderConfig> = Vec::new();
    let mut i: usize = 0;
    while i < candidates.len()
        invariant
            i <= candidates.len(),
            others@ == spec_other_contexts(candidates@.take(i as int), context_type),
        decreases candidates.len() - i,
    {
        proof {
            lemma_other_contexts_push(candidates@, context_type, i as int);
        }
        if candidates[i].context_type != context_type {
            others.push(candidates[i]);
        }
        i = i + 1;
    }
    assert(candidates@.take(candidates@.len() as int) =~= candidates@);
    others
}

fn es_recovery_contexts(candidates: &[HwRenderConfig], context_type: HwContextType) -> (found: Vec<
    HwRenderConfig,
>)
    ensures
        found@ == spec_es_recovery_contexts(candidates@, context_type),
{
    let mut found: Vec<HwRenderConfig> = Vec::new();
    let mut i: usize = 0;
    while i < candidates.len()
        invariant
            i <= candidates.len(),
            found@ == spec_es_recovery_contexts(candidates@.take(i as int), context_type),
        decreases candidates.len() - i,
    {
        proof {
            lemma_es_recovery_push(candidates@, context_type, i as int);
        }
        let config = candidates[i];
        if is_opengl_es_family(config.context_type) && config.context_type != context_type {
            found.push(config);
        }
        i = i + 1;
    }
    assert(candidates@.take(candidates@.len() as int) =~= candidates@);
    found
}

/// Computes the order in which candidates are offered to the frontend.
pub fn hw_render_plan(preferred: Option<PreferredHwRender>, candidates: &[HwRenderConfig]) -> (plan:
    Vec<HwRenderConfig>)
    ensures
        plan@ == spec_hw_render_plan(preferred, candidates@),
{
    match preferred {
        None => {
            let mut plan: Vec<HwRenderConfig> = Vec::new();
            let mut i: usize = 0;
            while i < candidates.len()
                invariant
                    i <= candidates.len(),
                    plan@ == candidates@.take(i as int),
                decreases candidates.len() - i,
            {
                plan.push(candidates[i]);
                i = i + 1;
                assert(plan@ =~= candidates@.take(i as int));
            }
            assert(candidates@.take(candidates@.len() as int) =~= candidates@);
            plan
        },
        Some(p) => {
            let first = find_context(candidates, p.context_type);
            let mut plan: Vec<HwRenderConfig> = Vec::new();
            if let Some(config) = first {
                plan.push(config);
            }
            let es_recovery = first.is_some() && p.context_type == retro_hw_context_type::OpenGl
                && !p.supports_non_preferred_context;
            let mut tail = if es_recovery {
                es_recovery_contexts(candidates, p.context_type)
            } else if !p.supports_non_preferred_context {
                Vec::new()
            } else {
                other_contexts(candidates, p.context_type)
            };
            let ghost head = plan@;
            plan.append(&mut tail);
            plan
        },
    }
}

/// Progress of offering a plan of candidates to the frontend.
///
proof fn lemma_find_context_member(candidates: Seq<HwRenderConfig>, context_type: HwContextType)
    ensures
        spec_find_context(candidates, context_type) matches Some(c) ==> candidates.contains(c)
            && c.context_type == context_type,
    decreases candidates.len(),
{
    if candidates.len() > 0 && candidates[0].context_type != context_type {
        lemma_find_context_member(candidates.drop_first(), context_type);
        if let Some(c) = spec_find_context(candidates, context_type) {
            let k = choose|k: int| 0 <= k < candidates.drop_first().len() && candidates.drop_first()[k] == c;
            assert(candidates[k + 1] == c);
        }
    } else if candidates.len() > 0 {
        assert(candidates[0] == candidates[0]);
    }
}

proof fn lemma_other_contexts_member(candidates: Seq<HwRenderConfig>, context_type: HwContextType)
    ensures
        forall|i: int|
            0 <= i < spec_other_contexts(candidates, context_type).len() ==> candidates.contains(
                #[trigger] spec_other_contexts(candidates, context_type)[i],
            ) && spec_other_contexts(candidates, context_type)[i].context_type != context_type,
    decreases candidates.len(),
{
    if candidates.len() > 0 {
        let rest = candidates.drop_first();
        lemma_other_contexts_member(rest, context_type);
        let others = spec_other_contexts(candidates, context_type);
        assert forall|i: int| 0 <= i < others.len() implies candidates.contains(#[trigger] others[i])
            && others[i].context_type != context_type by {
            let tail = spec_other_contexts(rest, context_type);
            if candidates[0].context_type == context_type {
                let k = choose|k: int| 0 <= k < rest.len() && rest[k] == tail[i];
                assert(candidates[k + 1] == others[i]);
            } else if i == 0 {
                assert(candidates[0] == others[0]);
            } else {
                assert(others[i] == tail[i - 1]);
                let k = choose|k: int| 0 <= k < rest.len() && rest[k] == tail[i - 1];
                assert(candidates[k + 1] == others[i]);
            }
        }
    }
}

proof fn lemma_es_recovery_member(candidates: Seq<HwRenderConfig>, context_type: HwContextType)
    ensures
        forall|i: int|
            0 <= i < spec_es_recovery_contexts(candidates, context_type).len() ==> candidates.contains(
                #[trigger] spec_es_recovery_contexts(candidates, context_type)[i],
            ) && spec_is_opengl_es_family(spec_es_recovery_contexts(candidates, context_type)[i].context_type)
                && spec_es_recovery_contexts(candidates, context_type)[i].context_type != context_type,
    decreases candidates.len(),
{
    if candidates.len() > 0 {
        let rest = candidates.drop_first();
        lemma_es_recovery_member(rest, context_type);
        let found = spec_es_recovery_contexts(candidates, context_type);
        assert forall|i: int| 0 <= i < found.len() implies candidates.contains(#[trigger] found[i])
            && spec_is_opengl_es_family(found[i].context_type) && found[i].context_type != context_type by {
            let tail = spec_es_recovery_contexts(rest, context_type);
            if !(spec_is_opengl_es_family(candidates[0].context_type) && candidates[0].context_type
                != context_type) {
                let k = choose|k: int| 0 <= k < rest.len() && rest[k] == tail[i];
                assert(candidates[k + 1] == found[i]);
            } else if i == 0 {
                assert(candidates[0] == found[0]);
            } else {
                assert(found[i] == tail[i - 1]);
                let k = choose|k: int| 0 <= k < rest.len() && rest[k] == tail[i - 1];
                assert(candidates[k + 1] == found[i]);
            }
        }
    }
}

/// The plan only offers configured candidates; without a frontend
/// preference it offers all of them in order.
pub proof fn lemma_hw_render_plan_offers_candidates(
    preferred: Option<PreferredHwRender>,
    candidates: Seq<HwRenderConfig>,
)
    ensures
        forall|i: int|
            0 <= i < spec_hw_render_plan(preferred, candidates).len() ==> candidates.contains(
                #[trigger] spec_hw_render_plan(preferred, candidates)[i],
            ),
        preferred is None ==> spec_hw_render_plan(preferred, candidates) == candidates,
{
    if let Some(p) = preferred {
        lemma_find_context_member(candidates, p.context_type);
        lemma_other_contexts_member(candidates, p.context_type);
        lemma_es_recovery_member(candidates, p.context_type);
        let plan = spec_hw_render_plan(preferred, candidates);
        let first = spec_find_context(candidates, p.context_type);
        let head: Seq<HwRenderConfig> = match first {
            Some(config) => seq![config],
            None => Seq::empty(),
        };
        assert forall|i: int| 0 <= i < plan.len() implies candidates.contains(#[trigger] plan[i]) by {
            if i < head.len() {
                assert(plan[i] == first->0);
            } else {
                let es_recovery = first is Some && p.context_type == retro_hw_context_type::OpenGl
                    && !p.supports_non_preferred_context;
                if es_recovery {
                    assert(plan[i] == spec_es_recovery_contexts(candidates, p.context_type)[i - head.len()]);
                } else {
                    assert(plan[i] == spec_other_contexts(candidates, p.context_type)[i - head.len()]);
                }
            }
        }
    } else {
        assert forall|i: int| 0 <= i < candidates.len() implies candidates.contains(
            #[trigger] candidates[i],
        ) by {}
    }
}

/// With a preference that a candidate matches, the first candidate of the
/// preferred kind is offered first; where the frontend allows no other kind,
/// every offered candidate is of the preferred kind, or, after a generic
/// OpenGL preference, of the OpenGL ES family.
pub proof fn lemma_hw_render_plan_respects_preference(
    preferred: PreferredHwRender,
    candidates: Seq<HwRenderConfig>,
)
    ensures
        spec_find_context(candidates, preferred.context_type) matches Some(first) ==> spec_hw_render_plan(
            Some(preferred),
            candidates,
        ).len() > 0 && spec_hw_render_plan(Some(preferred), candidates)[0] == first,
        !preferred.supports_non_preferred_context ==> forall|i: int|
            0 <= i < spec_hw_render_plan(Some(preferred), candidates).len() ==> {
                let ty = (#[trigger] spec_hw_render_plan(Some(preferred), candidates)[i]).context_type;
                ty == preferred.context_type || (preferred.context_type == retro_hw_context_type::OpenGl
                    && spec_is_opengl_es_family(ty))
            },
{
    lemma_find_context_member(candidates, preferred.context_type);
    lemma_es_recovery_member(candidates, preferred.context_type);
    let plan = spec_hw_render_plan(Some(preferred), candidates);
    let first = spec_find_context(candidates, preferred.context_type);
    let head: Seq<HwRenderConfig> = match first {
        Some(config) => seq![config],
        None => Seq::empty(),
    };
    if first is Some {
        assert(plan[0] == head[0]);
    }
    if !preferred.supports_non_preferred_context {
        assert forall|i: int| 0 <= i < plan.len() implies {
            let ty = (#[trigger] plan[i]).context_type;
            ty == preferred.context_type || (preferred.context_type == retro_hw_context_type::OpenGl
                && spec_is_opengl_es_family(ty))
        } by {
            if i < head.len() {
                assert(plan[i] == first->0);
            } else {
                assert(plan[i] == spec_es_recovery_contexts(candidates, preferred.context_type)[i
                    - head.len()]);
            }
        }
    }
}

/// Whether a candidate is of a kind other than `context_type`.
pub open spec fn spec_is_other_kind(context_type: HwContextType) -> spec_fn(HwRenderConfig) -> bool {
    |config: HwRenderConfig| config.context_type != context_type
}

/// Whether some candidate is of the kind `context_type`.
pub open spec fn spec_has_kind(candidates: Seq<HwRenderConfig>, context_type: HwContextType) -> bool {
    exists|k: int| 0 <= k < candidates.len() && candidates[k].context_type == context_type
}

proof fn lemma_other_contexts_filter(candidates: Seq<HwRenderConfig>, context_type: HwContextType)
    ensures
        spec_other_contexts(candidates, context_type) == candidates.filter(
            spec_is_other_kind(context_type),
        ),
    decreases candidates.len(),
{
    let pred = spec_is_other_kind(context_type);
    if candidates.len() == 0 {
        reveal(Seq::filter);
    } else {
        let head = seq![candidates[0]];
        let rest = candidates.drop_first();
        lemma_other_contexts_filter(rest, context_type);
        assert(candidates =~= head + rest);
        Seq::filter_distributes_over_add(head, rest, pred);
        reveal_with_fuel(Seq::filter, 2);
        assert(head.drop_last() =~= Seq::<HwRenderConfig>::empty());
        if pred(candidates[0]) {
            assert(head.filter(pred) =~= head);
        } else {
            assert(head.filter(pred) =~= Seq::<HwRenderConfig>::empty());
        }
    }
}

proof fn lemma_find_context_first(candidates: Seq<HwRenderConfig>, context_type: HwContextType)
    ensures
        spec_find_context(candidates, context_type) is Some <==> spec_has_kind(candidates, context_type),
        spec_find_context(candidates, context_type) matches Some(found) ==> exists|k: int|
            0 <= k < candidates.len() && candidates[k] == found && found.context_type == context_type
                && forall|j: int| 0 <= j < k ==> #[trigger] candidates[j].context_type != context_type,
    decreases candidates.len(),
{
    if candidates.len() > 0 {
        let rest = candidates.drop_first();
        lemma_find_context_first(rest, context_type);
        if candidates[0].context_type == context_type {
            assert(candidates[0] == candidates[0]);
        } else {
            if spec_has_kind(candidates, context_type) {
                let k = choose|k: int| 0 <= k < candidates.len() && candidates[k].context_type == context_type;
                assert(rest[k - 1] == candidates[k]);
            }
            if spec_has_kind(rest, context_type) {
                let k = choose|k: int| 0 <= k < rest.len() && rest[k].context_type == context_type;
                assert(candidates[k + 1] == rest[k]);
            }
            if let Some(found) = spec_find_context(candidates, context_type) {
                let k = choose|k: int|
                    0 <= k < rest.len() && rest[k] == found && found.context_type == context_type
                        && forall|j: int| 0 <= j < k ==> #[trigger] rest[j].context_type != context_type;
                assert(candidates[k + 1] == found);
                assert forall|j: int| 0 <= j < k + 1 implies #[trigger] candidates[j].context_type
                    != context_type by {
                    if j > 0 {
                        assert(candidates[j] == rest[j - 1]);
                    }
                }
            }
        }
    }
}

/// Where the frontend allows other context kinds, the plan offers the first
/// candidate of the preferred kind, if there is one, and then every candidate
/// of another kind in configured order: nothing else, and nothing left out.
pub proof fn lemma_hw_render_plan_with_fallbacks(preferred: PreferredHwRender, candidates: Seq<HwRenderConfig>)
    requires
        preferred.supports_non_preferred_context,
    ensures
        ({
            let plan = spec_hw_render_plan(Some(preferred), candidates);
            let others = candidates.filter(spec_is_other_kind(preferred.context_type));
            let head_len: int = if spec_has_kind(candidates, preferred.context_type) {
                1
            } else {
                0
            };
            &&& plan.len() == others.len() + head_len
            &&& plan.skip(head_len) == others
            &&& spec_has_kind(candidates, preferred.context_type) ==> exists|k: int|
                0 <= k < candidates.len() && candidates[k] == plan[0] && plan[0].context_type
                    == preferred.context_type && forall|j: int|
                    0 <= j < k ==> #[trigger] candidates[j].context_type != preferred.context_type
        }),
{
    lemma_other_contexts_filter(candidates, preferred.context_type);
    lemma_find_context_first(candidates, preferred.context_type);
    let plan = spec_hw_render_plan(Some(preferred), candidates);
    let others = spec_other_contexts(candidates, preferred.context_type);
    if spec_has_kind(candidates, preferred.context_type) {
        assert(plan.skip(1) =~= others);
        assert(plan[0] == spec_find_context(candidates, preferred.context_type)->0);
    } else {
        assert(plan.skip(0) =~= others);
    }
}

/// Whether a candidate is an OpenGL ES context (ES 2, ES 3 or a versioned
/// ES context).
pub open spec fn spec_is_es_kind() -> spec_fn(HwRenderConfig) -> bool {
    |config: HwRenderConfig|
        config.context_type == retro_hw_context_type::OpenGlEs2 || config.context_type
            == retro_hw_context_type::OpenGlEs3 || config.context_type
            == retro_hw_context_type::OpenGlEsVersion
}

proof fn lemma_es_recovery_filter(candidates: Seq<HwRenderConfig>)
    ensures
        spec_es_recovery_contexts(candidates, retro_hw_context_type::OpenGl) == candidates.filter(
            spec_is_es_kind(),
        ),
    decreases candidates.len(),
{
    let pred = spec_is_es_kind();
    if candidates.len() == 0 {
        reveal(Seq::filter);
    } else {
        let head = seq![candidates[0]];
        let rest = candidates.drop_first();
        lemma_es_recovery_filter(rest);
        assert(candidates =~= head + rest);
        Seq::filter_distributes_over_add(head, rest, pred);
        reveal_with_fuel(Seq::filter, 2);
        assert(head.drop_last() =~= Seq::<HwRenderConfig>::empty());
        if pred(candidates[0]) {
            assert(head.filter(pred) =~= head);
        } else {
            assert(head.filter(pred) =~= Seq::<HwRenderConfig>::empty());
        }
    }
}

/// Where the frontend allows only its preferred context kind, the plan offers
/// the first candidate of that kind and, if the preference is generic OpenGL
/// and such a candidate exists, then every OpenGL ES candidate in configured
/// order; nothing else. Without a candidate of the preferred kind nothing is
/// offered.
pub proof fn lemma_hw_render_plan_strict(preferred: PreferredHwRender, candidates: Seq<HwRenderConfig>)
    requires
        !preferred.supports_non_preferred_context,
    ensures
        ({
            let plan = spec_hw_render_plan(Some(preferred), candidates);
            let has_preferred = spec_has_kind(candidates, preferred.context_type);
            &&& !has_preferred ==> plan.len() == 0
            &&& has_preferred ==> plan.len() >= 1 && plan[0].context_type == preferred.context_type && exists|k: int|
                0 <= k < candidates.len() && candidates[k] == plan[0] && forall|j: int|
                    0 <= j < k ==> #[trigger] candidates[j].context_type != preferred.context_type
            &&& has_preferred && preferred.context_type == retro_hw_context_type::OpenGl ==> plan.skip(1)
                == candidates.filter(spec_is_es_kind())
            &&& has_preferred && preferred.context_type != retro_hw_context_type::OpenGl ==> plan.len() == 1
        }),
{
    lemma_find_context_first(candidates, preferred.context_type);
    lemma_es_recovery_filter(candidates);
    let plan = spec_hw_render_plan(Some(preferred), candidates);
    if spec_has_kind(candidates, preferred.context_type) {
        assert(plan[0] == spec_find_context(candidates, preferred.context_type)->0);
        if preferred.context_type == retro_hw_context_type::OpenGl {
            assert(plan.skip(1) =~= spec_es_recovery_contexts(candidates, preferred.context_type));
        }
    } else {
        assert(plan =~= Seq::<HwRenderConfig>::empty());
    }
}

/// The stage of the negotiation an offer belongs to.
#[derive(Clone, Copy, Debug, PartialEq, Eq, Structural)]
pub enum HwRenderAttemptKind {
    /// The first candidate of the kind the frontend prefers.
    Preferred,
    /// An OpenGL ES family candidate offered after the frontend refused its
    /// preferred generic OpenGL and allows no other kind.
    EsFamilyRecovery,
    /// Any other candidate, in configured order.
    Fallback,
}

/// How a negotiation ends when the frontend accepts no candidate.
#[derive(Clone, Copy, Debug, PartialEq, Eq, Structural)]
pub enum HwRenderExhaustion {
    /// The frontend allows only its preferred kind, and refused it or no
    /// candidate has it.
    NonPreferredDisallowed,
    /// The frontend refused its preferred generic OpenGL and every OpenGL ES
    /// family candidate.
    EsFamilyRecoveryRejected,
    /// The frontend refused every configured candidate.
    EveryCandidateRejected,
}

/// Whether the plan recovers from a refused generic OpenGL preference with
/// OpenGL ES family candidates.
pub open spec fn spec_es_family_recovery(p: PreferredHwRender, candidates: Seq<HwRenderConfig>) -> bool {
    &&& spec_find_context(candidates, p.context_type) is Some
    &&& p.context_type == retro_hw_context_type::OpenGl
    &&& !p.supports_non_preferred_context
}

/// The stage of the offer at position `index` of the plan.
pub open spec fn spec_hw_render_attempt_kind(
    preferred: Option<PreferredHwRender>,
    candidates: Seq<HwRenderConfig>,
    index: int,
) -> HwRenderAttemptKind {
    match preferred {
        None => HwRenderAttemptKind::Fallback,
        Some(p) => if spec_find_context(candidates, p.context_type) is Some && index == 0 {
            HwRenderAttemptKind::Preferred
        } else if spec_es_family_recovery(p, candidates) {
            HwRenderAttemptKind::EsFamilyRecovery
        } else {
            HwRenderAttemptKind::Fallback
        },
    }
}

/// How a negotiation over the plan ends when every offer is refused.
pub open spec fn spec_hw_render_exhaustion(
    preferred: Option<PreferredHwRender>,
    candidates: Seq<HwRenderConfig>,
) -> HwRenderExhaustion {
    match preferred {
        Some(p) => if spec_es_family_recovery(p, candidates) {
            HwRenderExhaustion::EsFamilyRecoveryRejected
        } else if !p.supports_non_preferred_context {
            HwRenderExhaustion::NonPreferredDisallowed
        } else {
            HwRenderExhaustion::EveryCandidateRejected
        },
        None => HwRenderExhaustion::EveryCandidateRejected,
    }
}

/// The stage of the offer at position `index` of the plan for `preferred`
/// and `candidates`, which log lines name.
pub fn hw_render_attempt_kind(
    preferred: Option<PreferredHwRender>,
    candidates: &[HwRenderConfig],
    index: usize,
) -> (kind: HwRenderAttemptKind)
    ensures
        kind == spec_hw_render_attempt_kind(preferred, candidates@, index as int),
{
    match preferred {
        None => HwRenderAttemptKind::Fallback,
        Some(p) => {
            let first = find_context(candidates, p.context_type);
            if first.is_some() && index == 0 {
                HwRenderAttemptKind::Preferred
            } else if first.is_some() && p.context_type == retro_hw_context_type::OpenGl
                && !p.supports_non_preferred_context {
                HwRenderAttemptKind::EsFamilyRecovery
            } else {
                HwRenderAttemptKind::Fallback
            }
        },
    }
}

/// How a negotiation over the plan for `preferred` and `candidates` ends
/// when the frontend refuses every offer.
pub fn hw_render_exhaustion(preferred: Option<PreferredHwRender>, candidates: &[HwRenderConfig]) -> (end:
    HwRenderExhaustion)
    ensures
        end == spec_hw_render_exhaustion(preferred, candidates@),
{
    match preferred {
        Some(p) => {
            let first = find_context(candidates, p.context_type);
            if first.is_some() && p.context_type == retro_hw_context_type::OpenGl
                && !p.supports_non_preferred_context {
                HwRenderExhaustion::EsFamilyRecoveryRejected
            } else if !p.supports_non_preferred_context {
                HwRenderExhaustion::NonPreferredDisallowed
            } else {
                HwRenderExhaustion::EveryCandidateRejected
            }
        },
        None => HwRenderExhaustion::EveryCandidateRejected,
    }
}

/// Each offer of the plan is tagged with its stage: the first offer is the
/// preferred candidate when one matches the preference, and every later offer
/// is of the preferred kind only if the frontend allows other kinds too.
pub proof fn lemma_hw_render_attempt_kinds(preferred: PreferredHwRender, candidates: Seq<HwRenderConfig>)
    ensures
        spec_find_context(candidates, preferred.context_type) is Some ==> spec_hw_render_attempt_kind(
            Some(preferred),
            candidates,
            0,
        ) == HwRenderAttemptKind::Preferred && spec_hw_render_plan(Some(preferred), candidates)[0]
            .context_type == preferred.context_type,
        forall|i: int|
            1 <= i < spec_hw_render_plan(Some(preferred), candidates).len() ==> (
            #[trigger] spec_hw_render_attempt_kind(Some(preferred), candidates, i)
                == HwRenderAttemptKind::EsFamilyRecovery) == spec_es_family_recovery(preferred, candidates),
{
    lemma_hw_render_plan_respects_preference(preferred, candidates);
    lemma_find_context_member(candidates, preferred.context_type);
}

/// The frontend is asked for `next_attempt`; its answer is recorded with
/// `record_response` until a candidate is accepted or the plan runs out.
pub struct HwRenderNegotiation {
    plan: Vec<HwRenderConfig>,
    next: usize,
    accepted: Option<HwRenderConfig>,
}

impl HwRenderNegotiation {
    /// The full plan of candidates.
    pub closed spec fn spec_plan(&self) -> Seq<HwRenderConfig> {
        self.plan@
    }

    /// How many candidates the frontend has rejected so far.
    pub closed spec fn spec_rejected(&self) -> nat {
        self.next as nat
    }

    /// The candidate the frontend accepted, if any.
    pub closed spec fn spec_accepted(&self) -> Option<HwRenderConfig> {
        self.accepted
    }

    pub open spec fn wf(&self) -> bool {
        &&& self.spec_rejected() <= self.spec_plan().len()
        &&& self.spec_accepted() matches Some(config) ==> self.spec_rejected()
            < self.spec_plan().len() && config == self.spec_plan()[self.spec_rejected() as int]
    }

    /// Starts a negotiation over the plan for `preferred` and `candidates`.
    pub fn new(preferred: Option<PreferredHwRender>, candidates: &[HwRenderConfig]) -> (negotiation:
        Self)
        ensures
            negotiation.wf(),
            negotiation.spec_plan() == spec_hw_render_plan(preferred, candidates@),
            negotiation.spec_rejected() == 0,
            negotiation.spec_accepted() is None,
    {
        HwRenderNegotiation { plan: hw_render_plan(preferred, candidates), next: 0, accepted: None }
    }

    /// The candidate to offer next, or `None` once a candidate was accepted
    /// or every candidate was rejected.
    pub fn next_attempt(&self) -> (attempt: Option<HwRenderConfig>)
        requires
            self.wf(),
        ensures
            attempt == (if self.spec_accepted() is None && self.spec_rejected()
                < self.spec_plan().len() {
                Some(self.spec_plan()[self.spec_rejected() as int])
            } else {
                None
            }),
    {
        if self.accepted.is_none() && self.next < self.plan.len() {
            Some(self.plan[self.next])
        } else {
            None
        }
    }

    /// Records the frontend's answer to the pending attempt.
    pub fn record_response(&mut self, accepted: bool)
        requires
            old(self).wf(),
            old(self).spec_accepted() is None,
            old(self).spec_rejected() < old(self).spec_plan().len(),
        ensures
            final(self).wf(),
            final(self).spec_plan() == old(self).spec_plan(),
            accepted ==> final(self).spec_accepted() == Some(
                old(self).spec_plan()[old(self).spec_rejected() as int],
            ) && final(self).spec_rejected() == old(self).spec_rejected(),
            !accepted ==> final(self).spec_accepted() is None && final(self).spec_rejected()
                == old(self).spec_rejected() + 1,
    {
        if accepted {
            self.accepted = Some(self.plan[self.next]);
        } else {
            let len = self.plan.len();
            if self.next < len {
                self.next = self.next + 1;
            }
        }
    }

    /// The negotiated context, once the frontend accepted one.
    pub fn accepted(&self) -> (config: Option<HwRenderConfig>)
        ensures
            config == self.spec_accepted(),
    {
        self.accepted
    }
}

/// The render target the frontend reported, as an OpenGL framebuffer name
/// (0 is the default framebuffer): `None` where the frontend reported
/// nothing or a value that does not fit in 32 bits.
pub fn framebuffer_name(reported: Option<usize>) -> (name: Option<u32>)
    ensures
        name == match reported {
            Some(value) => if value <= u32::MAX {
                Some(value as u32)
            } else {
                None
            },
            None => None,
        },
{
    match reported {
        Some(value) => if value as u64 <= u32::MAX as u64 {
            Some(value as u32)
        } else {
            None
        },
        None => None,
    }
}

} // verus!
