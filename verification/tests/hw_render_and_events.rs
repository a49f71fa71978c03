use libretro_core::events::{add_listener, remove_listener, EventListener};
use libretro_core::hw_render::{
    context_name, describe_hw_render_config, framebuffer_name, hw_render_attempt_kind,
    hw_render_exhaustion, hw_render_plan, is_opengl_es_family, HwContextType, HwRenderAttemptKind,
    HwRenderConfig, HwRenderExhaustion, HwRenderNegotiation, PreferredHwRender,
};

fn config(context_type: HwContextType) -> HwRenderConfig {
    HwRenderConfig { context_type, ..HwRenderConfig::default() }
}

fn negotiate(
    preferred: Option<PreferredHwRender>,
    candidates: &[HwRenderConfig],
    accepted_by_frontend: &[HwContextType],
) -> (Option<HwRenderConfig>, Vec<HwContextType>) {
    let mut negotiation = HwRenderNegotiation::new(preferred, candidates);
    let mut attempted = Vec::new();
    while let Some(attempt) = negotiation.next_attempt() {
        attempted.push(attempt.context_type);
        negotiation.record_response(accepted_by_frontend.contains(&attempt.context_type));
    }
    (negotiation.accepted(), attempted)
}

#[test]
fn hw_render_negotiation_prefers_frontend_preferred_context() {
    let (chosen, attempted) = negotiate(
        Some(PreferredHwRender {
            context_type: HwContextType::OpenGlEs3,
            supports_non_preferred_context: false,
        }),
        &[
            config(HwContextType::OpenGlCore),
            config(HwContextType::OpenGlEs3),
            config(HwContextType::OpenGlEs2),
        ],
        &[HwContextType::OpenGlEs3],
    );
    assert_eq!(chosen.map(|c| c.context_type), Some(HwContextType::OpenGlEs3));
    assert_eq!(attempted, vec![HwContextType::OpenGlEs3]);
}

#[test]
fn hw_render_negotiation_respects_frontend_nonpreferred_restriction() {
    let all = [
        HwContextType::OpenGlCore,
        HwContextType::OpenGlEs2,
        HwContextType::Vulkan,
        HwContextType::OpenGl,
    ];
    let (chosen, attempted) = negotiate(
        Some(PreferredHwRender {
            context_type: HwContextType::Vulkan,
            supports_non_preferred_context: false,
        }),
        &[config(HwContextType::OpenGlCore), config(HwContextType::OpenGlEs2)],
        &all,
    );
    assert!(chosen.is_none());
    assert!(attempted.is_empty());
}

#[test]
fn hw_render_negotiation_falls_back_only_when_frontend_allows_it() {
    let (chosen, attempted) = negotiate(
        Some(PreferredHwRender {
            context_type: HwContextType::Vulkan,
            supports_non_preferred_context: true,
        }),
        &[
            config(HwContextType::OpenGlCore),
            config(HwContextType::OpenGlEs3),
            config(HwContextType::OpenGlEs2),
        ],
        &[HwContextType::OpenGlEs2],
    );
    assert_eq!(chosen.map(|c| c.context_type), Some(HwContextType::OpenGlEs2));
    assert_eq!(
        attempted,
        vec![HwContextType::OpenGlCore, HwContextType::OpenGlEs3, HwContextType::OpenGlEs2]
    );
}

#[test]
fn hw_render_negotiation_recovers_from_rejected_generic_opengl_with_gles_fallbacks() {
    let (chosen, attempted) = negotiate(
        Some(PreferredHwRender {
            context_type: HwContextType::OpenGl,
            supports_non_preferred_context: false,
        }),
        &[
            config(HwContextType::OpenGlCore),
            config(HwContextType::OpenGlEs3),
            config(HwContextType::OpenGl),
            config(HwContextType::OpenGlEs2),
        ],
        &[HwContextType::OpenGlEs2],
    );
    assert_eq!(chosen.map(|c| c.context_type), Some(HwContextType::OpenGlEs2));
    assert_eq!(
        attempted,
        vec![HwContextType::OpenGl, HwContextType::OpenGlEs3, HwContextType::OpenGlEs2]
    );
}

#[test]
fn hw_render_plan_without_preference_tries_every_candidate() {
    let candidates = [config(HwContextType::Vulkan), config(HwContextType::OpenGlCore)];
    assert_eq!(hw_render_plan(None, &candidates), candidates.to_vec());
    let (chosen, attempted) = negotiate(None, &candidates, &[]);
    assert!(chosen.is_none());
    assert_eq!(attempted, vec![HwContextType::Vulkan, HwContextType::OpenGlCore]);
}

#[test]
fn hw_render_configs_and_descriptions() {
    let core = HwRenderConfig::opengl_core(3, 3).with_depth(true).with_stencil(true);
    assert_eq!(core.context_type, HwContextType::OpenGlCore);
    assert_eq!((core.version_major, core.version_minor), (3, 3));
    assert!(core.depth && core.stencil);
    assert_eq!(describe_hw_render_config(core), "OpenGlCore 3.3");
    assert_eq!(describe_hw_render_config(HwRenderConfig::opengl()), "OpenGl");
    assert_eq!(HwRenderConfig::opengles2().context_type, HwContextType::OpenGlEs2);
    assert_eq!(HwRenderConfig::opengles3().context_type, HwContextType::OpenGlEs3);
    let es = HwRenderConfig::opengles_version(3, 2);
    assert_eq!(es.context_type, HwContextType::OpenGlEsVersion);
    assert_eq!(describe_hw_render_config(es), "OpenGlEsVersion 3.2");
    assert!(HwContextType::OpenGlEs2.is_opengl_family());
    assert!(!HwContextType::Vulkan.is_opengl_family());
    assert!(is_opengl_es_family(HwContextType::OpenGlEsVersion));
    assert!(!is_opengl_es_family(HwContextType::OpenGlCore));
    let debug = HwRenderConfig::new(HwContextType::Vulkan)
        .with_bottom_left_origin(true)
        .with_cache_context(true)
        .with_debug_context(true)
        .with_version(1, 2);
    assert!(debug.bottom_left_origin && debug.cache_context && debug.debug_context);
    assert_eq!(describe_hw_render_config(debug), "Vulkan 1.2");
}

#[test]
fn event_listeners_dispatch_in_order_and_remove_by_id() {
    let mut listeners: Vec<EventListener<&str>> = Vec::new();
    add_listener(&mut listeners, 1, "first");
    add_listener(&mut listeners, 2, "second");
    add_listener(&mut listeners, 1, "again");
    assert_eq!(listeners.iter().map(|l| l.callback).collect::<Vec<_>>(), vec!["first", "second"]);

    remove_listener(&mut listeners, 1);
    assert_eq!(listeners.iter().map(|l| l.id).collect::<Vec<_>>(), vec![2]);
    remove_listener(&mut listeners, 9);
    assert_eq!(listeners.len(), 1);
    add_listener(&mut listeners, 1, "third");
    assert_eq!(listeners.iter().map(|l| l.callback).collect::<Vec<_>>(), vec!["second", "third"]);
    let listener = EventListener::new(5, "x");
    assert_eq!((listener.id, listener.callback), (5, "x"));
}

#[test]
fn framebuffer_names_fit_in_32_bits() {
    assert_eq!(framebuffer_name(Some(0)), Some(0));
    assert_eq!(framebuffer_name(Some(99)), Some(99));
    assert_eq!(framebuffer_name(None), None);
    assert_eq!(framebuffer_name(Some(u32::MAX as usize)), Some(u32::MAX));
    if usize::BITS > 32 {
        assert_eq!(framebuffer_name(Some(u32::MAX as usize + 1)), None);
    }
}

#[test]
fn negotiation_stages_name_each_offer() {
    let candidates = [
        config(HwContextType::OpenGlCore),
        config(HwContextType::OpenGl),
        config(HwContextType::OpenGlEs3),
        config(HwContextType::OpenGlEs2),
    ];
    let strict_gl = Some(PreferredHwRender {
        context_type: HwContextType::OpenGl,
        supports_non_preferred_context: false,
    });
    assert_eq!(hw_render_attempt_kind(strict_gl, &candidates, 0), HwRenderAttemptKind::Preferred);
    assert_eq!(hw_render_attempt_kind(strict_gl, &candidates, 1), HwRenderAttemptKind::EsFamilyRecovery);
    assert_eq!(hw_render_exhaustion(strict_gl, &candidates), HwRenderExhaustion::EsFamilyRecoveryRejected);

    let strict_vulkan = Some(PreferredHwRender {
        context_type: HwContextType::Vulkan,
        supports_non_preferred_context: false,
    });
    assert_eq!(hw_render_attempt_kind(strict_vulkan, &candidates, 0), HwRenderAttemptKind::Fallback);
    assert_eq!(hw_render_exhaustion(strict_vulkan, &candidates), HwRenderExhaustion::NonPreferredDisallowed);

    let open_core = Some(PreferredHwRender {
        context_type: HwContextType::OpenGlCore,
        supports_non_preferred_context: true,
    });
    assert_eq!(hw_render_attempt_kind(open_core, &candidates, 0), HwRenderAttemptKind::Preferred);
    assert_eq!(hw_render_attempt_kind(open_core, &candidates, 2), HwRenderAttemptKind::Fallback);
    assert_eq!(hw_render_exhaustion(open_core, &candidates), HwRenderExhaustion::EveryCandidateRejected);

    assert_eq!(hw_render_attempt_kind(None, &candidates, 0), HwRenderAttemptKind::Fallback);
    assert_eq!(hw_render_exhaustion(None, &candidates), HwRenderExhaustion::EveryCandidateRejected);
    assert_eq!(context_name(HwContextType::NoContext), "None");
    assert_eq!(context_name(HwContextType::OpenGlEs3), "OpenGlEs3");
}
