//! What was built last, as it is kept between runs.

use vstd::prelude::*;

verus! {

/// Version state for a single component (XO Lite CE, xoa-proxy).
#[derive(Debug)]
pub struct ComponentVersionState {
    /// Upstream version we last built against (e.g. "0.34.2"). Empty if never built.
    pub upstream_version: String,
    /// Our patch-revision counter against that upstream version (the "ce" suffix).
    pub ce_counter: u32,
    /// Full tag we last pushed (e.g. "v0.34.2-ce3"). Empty if never built.
    pub last_tag: String,
    /// SHA of our own repository's main branch at the time of `last_tag`: tells a
    /// change of ours from one upstream.
    pub last_built_sha: String,
}

/// What a [`ComponentVersionState`] holds.
pub struct ComponentVersionStateView {
    pub upstream_version: Seq<char>,
    pub ce_counter: u32,
    pub last_tag: Seq<char>,
    pub last_built_sha: Seq<char>,
}

impl View for ComponentVersionState {
    type V = ComponentVersionStateView;

    open spec fn view(&self) -> ComponentVersionStateView {
        ComponentVersionStateView {
            upstream_version: self.upstream_version@,
            ce_counter: self.ce_counter,
            last_tag: self.last_tag@,
            last_built_sha: self.last_built_sha@,
        }
    }
}

impl DeepView for ComponentVersionState {
    type V = ComponentVersionStateView;

    open spec fn deep_view(&self) -> ComponentVersionStateView {
        self@
    }
}

impl Clone for ComponentVersionState {
    fn clone(&self) -> (copy: Self)
        ensures
            copy@ == self@,
    {
        ComponentVersionState {
            upstream_version: self.upstream_version.clone(),
            ce_counter: self.ce_counter,
            last_tag: self.last_tag.clone(),
            last_built_sha: self.last_built_sha.clone(),
        }
    }
}

impl ComponentVersionStateView {
    /// The state before anything was built.
    pub open spec fn empty() -> ComponentVersionStateView {
        ComponentVersionStateView {
            upstream_version: Seq::empty(),
            ce_counter: 0,
            last_tag: Seq::empty(),
            last_built_sha: Seq::empty(),
        }
    }
}

impl Default for ComponentVersionState {
    fn default() -> (state: Self)
        ensures
            state@ == ComponentVersionStateView::empty(),
    {
        ComponentVersionState {
            upstream_version: String::new(),
            ce_counter: 0,
            last_tag: String::new(),
            last_built_sha: String::new(),
        }
    }
}

/// Version state for ISO builds.
#[derive(Debug)]
pub struct IsoVersionState {
    /// XCP-ng base version this edition currently targets (e.g. "8.3").
    pub xcpng_version: String,
    /// Community build counter for that XCP-ng version (the "ce" suffix).
    pub ce_counter: u32,
    /// Full tag we last pushed (e.g. "v8.3-ce4"). Empty if never built.
    pub last_tag: String,
    /// Component tags baked into the last ISO build.
    pub last_xolite_tag: String,
    pub last_xoa_proxy_tag: String,
}

/// What a [`IsoVersionState`] holds.
pub struct IsoVersionStateView {
    pub xcpng_version: Seq<char>,
    pub ce_counter: u32,
    pub last_tag: Seq<char>,
    pub last_xolite_tag: Seq<char>,
    pub last_xoa_proxy_tag: Seq<char>,
}

impl View for IsoVersionState {
    type V = IsoVersionStateView;

    open spec fn view(&self) -> IsoVersionStateView {
        IsoVersionStateView {
            xcpng_version: self.xcpng_version@,
            ce_counter: self.ce_counter,
            last_tag: self.last_tag@,
            last_xolite_tag: self.last_xolite_tag@,
            last_xoa_proxy_tag: self.last_xoa_proxy_tag@,
        }
    }
}

impl DeepView for IsoVersionState {
    type V = IsoVersionStateView;

    open spec fn deep_view(&self) -> IsoVersionStateView {
        self@
    }
}

impl Clone for IsoVersionState {
    fn clone(&self) -> (copy: Self)
        ensures
            copy@ == self@,
    {
        IsoVersionState {
            xcpng_version: self.xcpng_version.clone(),
            ce_counter: self.ce_counter,
            last_tag: self.last_tag.clone(),
            last_xolite_tag: self.last_xolite_tag.clone(),
            last_xoa_proxy_tag: self.last_xoa_proxy_tag.clone(),
        }
    }
}

impl IsoVersionStateView {
    /// The state before anything was built.
    pub open spec fn empty() -> IsoVersionStateView {
        IsoVersionStateView {
            xcpng_version: Seq::empty(),
            ce_counter: 0,
            last_tag: Seq::empty(),
            last_xolite_tag: Seq::empty(),
            last_xoa_proxy_tag: Seq::empty(),
        }
    }
}

impl Default for IsoVersionState {
    fn default() -> (state: Self)
        ensures
            state@ == IsoVersionStateView::empty(),
    {
        IsoVersionState {
            xcpng_version: String::new(),
            ce_counter: 0,
            last_tag: String::new(),
            last_xolite_tag: String::new(),
            last_xoa_proxy_tag: String::new(),
        }
    }
}

/// Version state for XOA-HL builds.
#[derive(Debug)]
pub struct XoaHlVersionState {
    /// Last built SHA of the xoa-hl repository.
    pub last_built_sha: String,
    /// Last built tag, if any.
    pub last_tag: String,
}

/// What a [`XoaHlVersionState`] holds.
pub struct XoaHlVersionStateView {
    pub last_built_sha: Seq<char>,
    pub last_tag: Seq<char>,
}

impl View for XoaHlVersionState {
    type V = XoaHlVersionStateView;

    open spec fn view(&self) -> XoaHlVersionStateView {
        XoaHlVersionStateView {
            last_built_sha: self.last_built_sha@,
            last_tag: self.last_tag@,
        }
    }
}

impl DeepView for XoaHlVersionState {
    type V = XoaHlVersionStateView;

    open spec fn deep_view(&self) -> XoaHlVersionStateView {
        self@
    }
}

impl Clone for XoaHlVersionState {
    fn clone(&self) -> (copy: Self)
        ensures
            copy@ == self@,
    {
        XoaHlVersionState {
            last_built_sha: self.last_built_sha.clone(),
            last_tag: self.last_tag.clone(),
        }
    }
}

impl XoaHlVersionStateView {
    /// The state before anything was built.
    pub open spec fn empty() -> XoaHlVersionStateView {
        XoaHlVersionStateView {
            last_built_sha: Seq::empty(),
            last_tag: Seq::empty(),
        }
    }
}

impl Default for XoaHlVersionState {
    fn default() -> (state: Self)
        ensures
            state@ == XoaHlVersionStateView::empty(),
    {
        XoaHlVersionState {
            last_built_sha: String::new(),
            last_tag: String::new(),
        }
    }
}

/// Complete version state for all components.
#[derive(Debug)]
pub struct VersionState {
    pub xolite_ce: ComponentVersionState,
    pub xoa_proxy: ComponentVersionState,
    pub iso: IsoVersionState,
    pub xoa_hl: XoaHlVersionState,
}

/// What a [`VersionState`] holds.
pub struct VersionStateView {
    pub xolite_ce: ComponentVersionStateView,
    pub xoa_proxy: ComponentVersionStateView,
    pub iso: IsoVersionStateView,
    pub xoa_hl: XoaHlVersionStateView,
}

impl View for VersionState {
    type V = VersionStateView;

    open spec fn view(&self) -> VersionStateView {
        VersionStateView {
            xolite_ce: self.xolite_ce@,
            xoa_proxy: self.xoa_proxy@,
            iso: self.iso@,
            xoa_hl: self.xoa_hl@,
        }
    }
}

impl DeepView for VersionState {
    type V = VersionStateView;

    open spec fn deep_view(&self) -> VersionStateView {
        self@
    }
}

impl Clone for VersionState {
    fn clone(&self) -> (copy: Self)
        ensures
            copy@ == self@,
    {
        VersionState {
            xolite_ce: self.xolite_ce.clone(),
            xoa_proxy: self.xoa_proxy.clone(),
            iso: self.iso.clone(),
            xoa_hl: self.xoa_hl.clone(),
        }
    }
}

impl VersionStateView {
    /// The state before anything was built.
    pub open spec fn empty() -> VersionStateView {
        VersionStateView {
            xolite_ce: ComponentVersionStateView::empty(),
            xoa_proxy: ComponentVersionStateView::empty(),
            iso: IsoVersionStateView::empty(),
            xoa_hl: XoaHlVersionStateView::empty(),
        }
    }
}

impl Default for VersionState {
    fn default() -> (state: Self)
        ensures
            state@ == VersionStateView::empty(),
    {
        VersionState {
            xolite_ce: ComponentVersionState::default(),
            xoa_proxy: ComponentVersionState::default(),
            iso: IsoVersionState::default(),
            xoa_hl: XoaHlVersionState::default(),
        }
    }
}

// ── Laws ───────────────────────────────────────────────────────────────────

/// A state that was never written remembers nothing: no tag, no commit, no counter.
pub proof fn fresh_state_remembers_nothing()
    ensures
        ({
            let state = VersionStateView::empty();
            &&& state.xolite_ce.last_tag.len() == 0 && state.xolite_ce.last_built_sha.len() == 0
            &&& state.xolite_ce.upstream_version.len() == 0 && state.xolite_ce.ce_counter == 0
            &&& state.xoa_proxy.last_tag.len() == 0 && state.xoa_proxy.last_built_sha.len() == 0
            &&& state.xoa_proxy.upstream_version.len() == 0 && state.xoa_proxy.ce_counter == 0
            &&& state.iso.last_tag.len() == 0 && state.iso.xcpng_version.len() == 0
            &&& state.iso.last_xolite_tag.len() == 0 && state.iso.last_xoa_proxy_tag.len() == 0
            &&& state.iso.ce_counter == 0
            &&& state.xoa_hl.last_tag.len() == 0 && state.xoa_hl.last_built_sha.len() == 0
        }),
{
}

} // verus!
