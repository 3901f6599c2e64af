//! The injection orchestrator: a state machine over the cross-process calls.
//!
//! The machine decides; an unverified driver performs. Each step the machine
//! hands out names one operating-system action — open, allocate, write,
//! resolve, spawn, free, close — and the driver reports the outcome as an
//! event. Every failing event starts a compensation run that frees whatever
//! was allocated, in reverse order, and closes the handle; a spawned thread
//! transfers the two regions to the target, and the handle is closed on that
//! path too.

use crate::errors::InjectError;
use crate::image::build_image;
use crate::image::section_placed;
use crate::pe::parse_pe;
use crate::pe::pe_matches;
use crate::pe::valid_pe;
use crate::pe::DIR_BASERELOC;
use crate::pe::DIR_IMPORT;
use crate::pe::DIR_TLS;
use crate::pe::HEADER_PREFIX;
use crate::pe::num_sections;
use crate::pe::PeInfo;
use vstd::multiset::Multiset;
use vstd::prelude::*;

verus! {

/// Size of the region holding the loader data and code.
pub const LOADER_REGION_SIZE: u64 = 0x1000;

/// Where the injection attempt stands.
#[derive(Clone, Copy, Debug, PartialEq, Eq, Structural)]
pub enum Stage {
    Opening,
    AllocPreferred,
    AllocAnywhere,
    WritingImage,
    ResolvingSymbols,
    AllocLoader,
    WritingLoader,
    Spawning,
    ClosingAfterSuccess,
    FreeingLoader,
    FreeingImage,
    ClosingAfterFailure,
    Done,
    Failed,
}

/// The next action the driver must perform in the target.
#[derive(Clone, Copy, Debug, PartialEq, Eq, Structural)]
pub enum Step {
    OpenProcess { pid: u32 },
    AllocImageAt { addr: u64, size: u64 },
    AllocImageAnywhere { size: u64 },
    WriteImage { base: u64 },
    ResolveLoaderSymbols,
    AllocLoaderRegion { size: u64 },
    WriteLoader { loader_base: u64, image_base: u64 },
    SpawnThread { loader_base: u64, image_base: u64 },
    FreeRegion { base: u64, size: u64 },
    CloseHandle,
    Succeeded,
    Aborted { error: InjectError },
}

/// The driver's report on the step it performed.
#[derive(Clone, Copy, Debug, PartialEq, Eq, Structural)]
pub enum Event {
    Opened,
    OpenDenied,
    Allocated { base: u64 },
    AllocDenied,
    Wrote,
    WriteDenied,
    SymbolsResolved,
    SymbolsMissing,
    Spawned,
    SpawnDenied,
    Freed,
    Closed,
}

/// One injection attempt: its stage and the resources it holds.
///
/// The ghost histories record every region the target granted and every
/// region given back, so that what a finished attempt left in the target is
/// a stated fact, not an inference.
pub struct Injection {
    pub stage: Stage,
    pub pid: u32,
    pub image_size: u64,
    pub preferred_base: u64,
    pub image_base: u64,
    pub loader_base: u64,
    pub error: Option<InjectError>,
    pub handle_open: bool,
    pub image_allocated: bool,
    pub loader_allocated: bool,
    pub transferred: bool,
    pub allocs: Ghost<Multiset<(u64, u64)>>,
    pub frees: Ghost<Multiset<(u64, u64)>>,
}

/// The regions currently held in the target.
pub open spec fn live_regions(s: Injection) -> Multiset<(u64, u64)> {
    let m0 = Multiset::<(u64, u64)>::empty();
    let m1 = if s.image_allocated {
        m0.insert((s.image_base, s.image_size))
    } else {
        m0
    };
    if s.loader_allocated {
        m1.insert((s.loader_base, LOADER_REGION_SIZE))
    } else {
        m1
    }
}

/// The attempt's well-formedness: what each stage implies about the handle,
/// the regions, the error, and the histories.
pub open spec fn inv(s: Injection) -> bool {
    &&& s.allocs@ == s.frees@.add(live_regions(s))
    &&& match s.stage {
        Stage::Opening => !s.handle_open && !s.image_allocated && !s.loader_allocated
            && s.frees@ == Multiset::<(u64, u64)>::empty() && s.error is None && !s.transferred,
        Stage::AllocPreferred | Stage::AllocAnywhere => s.handle_open && !s.image_allocated
            && !s.loader_allocated && s.frees@ == Multiset::<(u64, u64)>::empty() && s.error is None
            && !s.transferred,
        Stage::WritingImage | Stage::ResolvingSymbols | Stage::AllocLoader => s.handle_open
            && s.image_allocated && !s.loader_allocated && s.frees@ == Multiset::<(
            u64,
            u64,
        )>::empty() && s.error is None && !s.transferred,
        Stage::WritingLoader | Stage::Spawning => s.handle_open && s.image_allocated
            && s.loader_allocated && s.frees@ == Multiset::<(u64, u64)>::empty() && s.error is None
            && !s.transferred,
        Stage::ClosingAfterSuccess => s.handle_open && s.image_allocated && s.loader_allocated
            && s.frees@ == Multiset::<(u64, u64)>::empty() && s.error is None && s.transferred,
        Stage::FreeingLoader => s.handle_open && s.image_allocated && s.loader_allocated
            && s.frees@ == Multiset::<(u64, u64)>::empty() && s.error is Some && !s.transferred,
        Stage::FreeingImage => s.handle_open && s.image_allocated && !s.loader_allocated
            && s.error is Some && !s.transferred,
        Stage::ClosingAfterFailure => s.handle_open && !s.image_allocated && !s.loader_allocated
            && s.error is Some && !s.transferred,
        Stage::Done => !s.handle_open && s.image_allocated && s.loader_allocated && s.frees@
            == Multiset::<(u64, u64)>::empty() && s.error is None && s.transferred,
        Stage::Failed => !s.handle_open && !s.image_allocated && !s.loader_allocated && s.frees@
            == s.allocs@ && s.error is Some,
    }
}

/// The events a driver may report in the attempt's current stage.
pub open spec fn expects(s: Injection, ev: Event) -> bool {
    match s.stage {
        Stage::Opening => ev is Opened || ev is OpenDenied,
        Stage::AllocPreferred | Stage::AllocAnywhere | Stage::AllocLoader => ev is Allocated
            || ev is AllocDenied,
        Stage::WritingImage | Stage::WritingLoader => ev is Wrote || ev is WriteDenied,
        Stage::ResolvingSymbols => ev is SymbolsResolved || ev is SymbolsMissing,
        Stage::Spawning => ev is Spawned || ev is SpawnDenied,
        Stage::FreeingLoader | Stage::FreeingImage => ev is Freed,
        Stage::ClosingAfterSuccess | Stage::ClosingAfterFailure => ev is Closed,
        Stage::Done | Stage::Failed => false,
    }
}

/// The machine's whole transition relation: for each stage and event, the
/// exact next state and the exact step handed to the driver.
pub open spec fn transition(pre: Injection, ev: Event, post: Injection, step: Step) -> bool {
    match pre.stage {
        Stage::Opening => match ev {
            Event::Opened => post == Injection {
                stage: Stage::AllocPreferred,
                handle_open: true,
                ..pre
            } && step == (Step::AllocImageAt { addr: pre.preferred_base, size: pre.image_size }),
            Event::OpenDenied => post == Injection {
                stage: Stage::Failed,
                error: Some(InjectError::OpenFailed),
                ..pre
            } && step == (Step::Aborted { error: InjectError::OpenFailed }),
            _ => false,
        },
        Stage::AllocPreferred => match ev {
            Event::Allocated { base } => post == Injection {
                stage: Stage::WritingImage,
                image_base: base,
                image_allocated: true,
                allocs: Ghost(pre.allocs@.insert((base, pre.image_size))),
                ..pre
            } && step == (Step::WriteImage { base }),
            Event::AllocDenied => post == Injection { stage: Stage::AllocAnywhere, ..pre } && step
                == (Step::AllocImageAnywhere { size: pre.image_size }),
            _ => false,
        },
        Stage::AllocAnywhere => match ev {
            Event::Allocated { base } => post == Injection {
                stage: Stage::WritingImage,
                image_base: base,
                image_allocated: true,
                allocs: Ghost(pre.allocs@.insert((base, pre.image_size))),
                ..pre
            } && step == (Step::WriteImage { base }),
            Event::AllocDenied => post == Injection {
                stage: Stage::ClosingAfterFailure,
                error: Some(InjectError::AllocFailed),
                ..pre
            } && step == Step::CloseHandle,
            _ => false,
        },
        Stage::WritingImage => match ev {
            Event::Wrote => post == Injection { stage: Stage::ResolvingSymbols, ..pre } && step
                == Step::ResolveLoaderSymbols,
            Event::WriteDenied => post == Injection {
                stage: Stage::FreeingImage,
                error: Some(InjectError::RemoteWriteFailed),
                ..pre
            } && step == (Step::FreeRegion { base: pre.image_base, size: pre.image_size }),
            _ => false,
        },
        Stage::ResolvingSymbols => match ev {
            Event::SymbolsResolved => post == Injection { stage: Stage::AllocLoader, ..pre } && step
                == (Step::AllocLoaderRegion { size: LOADER_REGION_SIZE }),
            Event::SymbolsMissing => post == Injection {
                stage: Stage::FreeingImage,
                error: Some(InjectError::SystemSymbolMissing),
                ..pre
            } && step == (Step::FreeRegion { base: pre.image_base, size: pre.image_size }),
            _ => false,
        },
        Stage::AllocLoader => match ev {
            Event::Allocated { base } => post == Injection {
                stage: Stage::WritingLoader,
                loader_base: base,
                loader_allocated: true,
                allocs: Ghost(pre.allocs@.insert((base, LOADER_REGION_SIZE))),
                ..pre
            } && step == (Step::WriteLoader { loader_base: base, image_base: pre.image_base }),
            Event::AllocDenied => post == Injection {
                stage: Stage::FreeingImage,
                error: Some(InjectError::AllocFailed),
                ..pre
            } && step == (Step::FreeRegion { base: pre.image_base, size: pre.image_size }),
            _ => false,
        },
        Stage::WritingLoader => match ev {
            Event::Wrote => post == Injection { stage: Stage::Spawning, ..pre } && step == (
            Step::SpawnThread { loader_base: pre.loader_base, image_base: pre.image_base }),
            Event::WriteDenied => post == Injection {
                stage: Stage::FreeingLoader,
                error: Some(InjectError::RemoteWriteFailed),
                ..pre
            } && step == (Step::FreeRegion { base: pre.loader_base, size: LOADER_REGION_SIZE }),
            _ => false,
        },
        Stage::Spawning => match ev {
            Event::Spawned => post == Injection {
                stage: Stage::ClosingAfterSuccess,
                transferred: true,
                ..pre
            } && step == Step::CloseHandle,
            Event::SpawnDenied => post == Injection {
                stage: Stage::FreeingLoader,
                error: Some(InjectError::ThreadCreateFailed),
                ..pre
            } && step == (Step::FreeRegion { base: pre.loader_base, size: LOADER_REGION_SIZE }),
            _ => false,
        },
        Stage::FreeingLoader => match ev {
            Event::Freed => post == Injection {
                stage: Stage::FreeingImage,
                loader_allocated: false,
                frees: Ghost(pre.frees@.insert((pre.loader_base, LOADER_REGION_SIZE))),
                ..pre
            } && step == (Step::FreeRegion { base: pre.image_base, size: pre.image_size }),
            _ => false,
        },
        Stage::FreeingImage => match ev {
            Event::Freed => post == Injection {
                stage: Stage::ClosingAfterFailure,
                image_allocated: false,
                frees: Ghost(pre.frees@.insert((pre.image_base, pre.image_size))),
                ..pre
            } && step == Step::CloseHandle,
            _ => false,
        },
        Stage::ClosingAfterFailure => match ev {
            Event::Closed => post == Injection { stage: Stage::Failed, handle_open: false, ..pre }
                && (pre.error matches Some(e) && step == (Step::Aborted { error: e })),
            _ => false,
        },
        Stage::ClosingAfterSuccess => match ev {
            Event::Closed => post == Injection { stage: Stage::Done, handle_open: false, ..pre }
                && step == Step::Succeeded,
            _ => false,
        },
        Stage::Done | Stage::Failed => false,
    }
}

impl Injection {
    /// Starts an attempt against process `pid` for a validated image:
    /// nothing is held yet, and the first step opens the target.
    pub fn begin(pe: &PeInfo, pid: u32) -> (r: (Injection, Step))
        ensures
            inv(r.0),
            r.0.stage is Opening,
            r.0.pid == pid,
            r.0.image_size == pe.size_of_image,
            r.0.preferred_base == pe.image_base,
            r.0.allocs@ == Multiset::<(u64, u64)>::empty(),
            r.1 == (Step::OpenProcess { pid }),
    {
        let m = Injection {
            stage: Stage::Opening,
            pid,
            image_size: pe.size_of_image as u64,
            preferred_base: pe.image_base,
            image_base: 0,
            loader_base: 0,
            error: None,
            handle_open: false,
            image_allocated: false,
            loader_allocated: false,
            transferred: false,
            allocs: Ghost(Multiset::empty()),
            frees: Ghost(Multiset::empty()),
        };
        proof {
            assert(m.frees@.add(live_regions(m)) =~= Multiset::<(u64, u64)>::empty());
        }
        (m, Step::OpenProcess { pid })
    }

    /// Feeds the driver's report in and hands the next step out.
    ///
    /// The returned step and the new state are pinned by the transition
    /// relation. An aborting step is returned exactly in the `Failed` stage,
    /// where every granted region has been given back and the handle is
    /// closed; a succeeding step exactly in `Done`, where the two regions —
    /// the image's and the loader's — are held by the target and the handle
    /// is closed.
    pub fn on_event(&mut self, ev: Event) -> (step: Step)
        requires
            inv(*old(self)),
            expects(*old(self), ev),
        ensures
            inv(*final(self)),
            transition(*old(self), ev, *final(self), step),
            step is Aborted <==> final(self).stage is Failed,
            step is Succeeded <==> final(self).stage is Done,
            final(self).stage is Failed ==> !final(self).handle_open && final(self).frees@
                == final(self).allocs@,
            final(self).stage is Done ==> !final(self).handle_open && final(self).frees@
                == Multiset::<(u64, u64)>::empty() && final(self).allocs@ == Multiset::<(
                u64,
                u64,
            )>::empty().insert((final(self).image_base, final(self).image_size)).insert(
                (final(self).loader_base, LOADER_REGION_SIZE),
            ),
    {
        let ghost pre = *self;
        match self.stage {
            Stage::Opening => match ev {
                Event::Opened => {
                    self.stage = Stage::AllocPreferred;
                    self.handle_open = true;
                    Step::AllocImageAt { addr: self.preferred_base, size: self.image_size }
                },
                _ => {
                    self.stage = Stage::Failed;
                    self.error = Some(InjectError::OpenFailed);
                    proof {
                        assert(self.frees@.add(live_regions(*self)) =~= self.frees@);
                    }
                    Step::Aborted { error: InjectError::OpenFailed }
                },
            },
            Stage::AllocPreferred => match ev {
                Event::Allocated { base } => {
                    self.stage = Stage::WritingImage;
                    self.image_base = base;
                    self.image_allocated = true;
                    proof {
                        self.allocs@ = pre.allocs@.insert((base, pre.image_size));
                        assert(self.frees@.add(live_regions(*self)) =~= pre.frees@.add(
                            live_regions(pre),
                        ).insert((base, pre.image_size)));
                    }
                    Step::WriteImage { base }
                },
                _ => {
                    self.stage = Stage::AllocAnywhere;
                    Step::AllocImageAnywhere { size: self.image_size }
                },
            },
            Stage::AllocAnywhere => match ev {
                Event::Allocated { base } => {
                    self.stage = Stage::WritingImage;
                    self.image_base = base;
                    self.image_allocated = true;
                    proof {
                        self.allocs@ = pre.allocs@.insert((base, pre.image_size));
                        assert(self.frees@.add(live_regions(*self)) =~= pre.frees@.add(
                            live_regions(pre),
                        ).insert((base, pre.image_size)));
                    }
                    Step::WriteImage { base }
                },
                _ => {
                    self.stage = Stage::ClosingAfterFailure;
                    self.error = Some(InjectError::AllocFailed);
                    Step::CloseHandle
                },
            },
            Stage::WritingImage => match ev {
                Event::Wrote => {
                    self.stage = Stage::ResolvingSymbols;
                    Step::ResolveLoaderSymbols
                },
                _ => {
                    self.stage = Stage::FreeingImage;
                    self.error = Some(InjectError::RemoteWriteFailed);
                    Step::FreeRegion { base: self.image_base, size: self.image_size }
                },
            },
            Stage::ResolvingSymbols => match ev {
                Event::SymbolsResolved => {
                    self.stage = Stage::AllocLoader;
                    Step::AllocLoaderRegion { size: LOADER_REGION_SIZE }
                },
                _ => {
                    self.stage = Stage::FreeingImage;
                    self.error = Some(InjectError::SystemSymbolMissing);
                    Step::FreeRegion { base: self.image_base, size: self.image_size }
                },
            },
            Stage::AllocLoader => match ev {
                Event::Allocated { base } => {
                    self.stage = Stage::WritingLoader;
                    self.loader_base = base;
                    self.loader_allocated = true;
                    proof {
                        self.allocs@ = pre.allocs@.insert((base, LOADER_REGION_SIZE));
                        assert(self.frees@.add(live_regions(*self)) =~= pre.frees@.add(
                            live_regions(pre),
                        ).insert((base, LOADER_REGION_SIZE)));
                    }
                    Step::WriteLoader { loader_base: base, image_base: self.image_base }
                },
                _ => {
                    self.stage = Stage::FreeingImage;
                    self.error = Some(InjectError::AllocFailed);
                    Step::FreeRegion { base: self.image_base, size: self.image_size }
                },
            },
            Stage::WritingLoader => match ev {
                Event::Wrote => {
                    self.stage = Stage::Spawning;
                    Step::SpawnThread {
                        loader_base: self.loader_base,
                        image_base: self.image_base,
                    }
                },
                _ => {
                    self.stage = Stage::FreeingLoader;
                    self.error = Some(InjectError::RemoteWriteFailed);
                    Step::FreeRegion { base: self.loader_base, size: LOADER_REGION_SIZE }
                },
            },
            Stage::Spawning => match ev {
                Event::Spawned => {
                    self.stage = Stage::ClosingAfterSuccess;
                    self.transferred = true;
                    Step::CloseHandle
                },
                _ => {
                    self.stage = Stage::FreeingLoader;
                    self.error = Some(InjectError::ThreadCreateFailed);
                    Step::FreeRegion { base: self.loader_base, size: LOADER_REGION_SIZE }
                },
            },
            Stage::FreeingLoader => {
                self.stage = Stage::FreeingImage;
                self.loader_allocated = false;
                proof {
                    self.frees@ = pre.frees@.insert((pre.loader_base, LOADER_REGION_SIZE));
                    assert(self.frees@.add(live_regions(*self)) =~= pre.frees@.add(
                        live_regions(pre),
                    ));
                }
                Step::FreeRegion { base: self.image_base, size: self.image_size }
            },
            Stage::FreeingImage => {
                self.stage = Stage::ClosingAfterFailure;
                self.image_allocated = false;
                proof {
                    self.frees@ = pre.frees@.insert((pre.image_base, pre.image_size));
                    assert(self.frees@.add(live_regions(*self)) =~= pre.frees@.add(
                        live_regions(pre),
                    ));
                }
                Step::CloseHandle
            },
            Stage::ClosingAfterFailure => {
                self.stage = Stage::Failed;
                self.handle_open = false;
                proof {
                    assert(self.frees@.add(live_regions(*self)) =~= self.frees@);
                }
                match self.error {
                    Some(e) => Step::Aborted { error: e },
                    None => {
                        proof {
                            assert(false);
                        }
                        Step::CloseHandle
                    },
                }
            },
            Stage::ClosingAfterSuccess => {
                self.stage = Stage::Done;
                self.handle_open = false;
                proof {
                    assert(self.allocs@ =~= Multiset::<(u64, u64)>::empty().insert(
                        (self.image_base, self.image_size),
                    ).insert((self.loader_base, LOADER_REGION_SIZE)));
                }
                Step::Succeeded
            },
            Stage::Done | Stage::Failed => {
                proof {
                    assert(false);
                }
                Step::CloseHandle
            },
        }
    }
}

/// Validates the DLL buffer and prepares an attempt against process `pid`:
/// the parsed headers, the mapped image to write at the allocated base, the
/// state machine, and its first step. Fails, before anything else happens,
/// exactly on the buffers the parser rejects.
pub fn prepare_injection(dll: &Vec<u8>, pid: u32) -> (r: Result<
    (PeInfo, Vec<u8>, Injection, Step),
    InjectError,
>)
    ensures
        r is Ok <==> valid_pe(dll@),
        r matches Ok(t) ==> {
            &&& pe_matches(dll@, t.0)
            &&& t.1@.len() == t.0.size_of_image
            &&& t.1@.subrange(0, HEADER_PREFIX as int) == dll@.subrange(0, HEADER_PREFIX as int)
            &&& forall|i: int|
                0 <= i < num_sections(dll@) ==> #[trigger] section_placed(dll@, t.1@, i)
            &&& inv(t.2)
            &&& t.2.stage is Opening
            &&& t.2.pid == pid
            &&& t.2.image_size == t.0.size_of_image
            &&& t.2.preferred_base == t.0.image_base
            &&& t.3 == (Step::OpenProcess { pid })
        },
        r matches Err(e) ==> e == InjectError::InvalidPE,
{
    let pe = match parse_pe(dll) {
        Ok(pe) => pe,
        Err(e) => {
            return Err(e);
        },
    };
    let img = build_image(dll, &pe);
    let (machine, step) = Injection::begin(&pe, pid);
    Ok((pe, img, machine, step))
}

/// A successful attempt left exactly two regions in the target — the
/// image's, of the declared image size, and the loader's page — and no
/// open handle.
pub proof fn lemma_success_holds_two_regions(m: Injection)
    requires
        inv(m),
        m.stage is Done,
    ensures
        !m.handle_open,
        m.frees@ == Multiset::<(u64, u64)>::empty(),
        m.allocs@ == Multiset::<(u64, u64)>::empty().insert((m.image_base, m.image_size)).insert(
            (m.loader_base, LOADER_REGION_SIZE),
        ),
{
    assert(m.allocs@ =~= Multiset::<(u64, u64)>::empty().insert(
        (m.image_base, m.image_size),
    ).insert((m.loader_base, LOADER_REGION_SIZE)));
}

/// A failed attempt holds nothing: the handle is closed and every region
/// the target granted was given back.
pub proof fn lemma_failure_releases_everything(m: Injection)
    requires
        inv(m),
        m.stage is Failed,
    ensures
        !m.handle_open,
        !m.image_allocated,
        !m.loader_allocated,
        m.frees@ == m.allocs@,
{
}

/// What the in-target loader does, in order, once it runs at the mapped
/// base: fix relocations when the base moved and the directory exists,
/// resolve imports when the directory exists, invoke the TLS callbacks when
/// the directory exists, and call the entry point — always, and always
/// last.
#[derive(Clone, Copy, Debug, PartialEq, Eq, Structural)]
pub enum LoaderStep {
    ApplyRelocations { delta: u64 },
    ResolveImports,
    InvokeTlsCallbacks,
    CallEntryPoint { rva: u32 },
}

/// 64-bit wrapping difference.
pub open spec fn wrap_sub64(a: u64, b: u64) -> u64 {
    if a >= b {
        (a - b) as u64
    } else {
        (a - b + 0x10000000000000000) as u64
    }
}

/// The loader's step sequence for an image mapped at `base`.
pub open spec fn spec_loader_plan(pe: PeInfo, base: u64) -> Seq<LoaderStep> {
    let delta = wrap_sub64(base, pe.image_base);
    let relocs: Seq<LoaderStep> = if delta != 0 && pe.directories@[DIR_BASERELOC as int].size != 0 {
        seq![LoaderStep::ApplyRelocations { delta }]
    } else {
        Seq::empty()
    };
    let imports: Seq<LoaderStep> = if pe.directories@[DIR_IMPORT as int].size != 0 {
        seq![LoaderStep::ResolveImports]
    } else {
        Seq::empty()
    };
    let tls: Seq<LoaderStep> = if pe.directories@[DIR_TLS as int].size != 0 {
        seq![LoaderStep::InvokeTlsCallbacks]
    } else {
        Seq::empty()
    };
    relocs + imports + tls + seq![
        LoaderStep::CallEntryPoint { rva: pe.address_of_entry_point },
    ]
}

/// Lays out the loader's work for an image mapped at `base`.
pub fn loader_plan(pe: &PeInfo, base: u64) -> (plan: Vec<LoaderStep>)
    requires
        pe.directories@.len() == 16,
    ensures
        plan@ == spec_loader_plan(*pe, base),
{
    let delta = base.wrapping_sub(pe.image_base);
    let mut plan: Vec<LoaderStep> = Vec::new();
    if delta != 0 && pe.directories[DIR_BASERELOC].size != 0 {
        plan.push(LoaderStep::ApplyRelocations { delta });
    }
    if pe.directories[DIR_IMPORT].size != 0 {
        plan.push(LoaderStep::ResolveImports);
    }
    if pe.directories[DIR_TLS].size != 0 {
        plan.push(LoaderStep::InvokeTlsCallbacks);
    }
    plan.push(LoaderStep::CallEntryPoint { rva: pe.address_of_entry_point });
    proof {
        assert(delta == wrap_sub64(base, pe.image_base));
        assert(plan@ =~= spec_loader_plan(*pe, base));
    }
    plan
}

/// The loader's ordering is load-bearing, and the plan keeps it: the entry
/// point is called exactly once, last; relocations come before import
/// resolution; and the TLS callbacks run before the entry point.
pub proof fn lemma_loader_plan_order(pe: PeInfo, base: u64)
    ensures
        spec_loader_plan(pe, base).len() >= 1,
        spec_loader_plan(pe, base).last() == (LoaderStep::CallEntryPoint {
            rva: pe.address_of_entry_point,
        }),
        forall|i: int|
            0 <= i < spec_loader_plan(pe, base).len() - 1 ==> !(#[trigger] spec_loader_plan(
                pe,
                base,
            )[i] is CallEntryPoint),
        forall|i: int, j: int|
            #![trigger spec_loader_plan(pe, base)[i], spec_loader_plan(pe, base)[j]]
            0 <= i < spec_loader_plan(pe, base).len() && 0 <= j < spec_loader_plan(pe, base).len()
                && spec_loader_plan(pe, base)[i] is ApplyRelocations && spec_loader_plan(
                pe,
                base,
            )[j] is ResolveImports ==> i < j,
        forall|i: int|
            0 <= i < spec_loader_plan(pe, base).len() && #[trigger] spec_loader_plan(
                pe,
                base,
            )[i] is InvokeTlsCallbacks ==> i < spec_loader_plan(pe, base).len() - 1,
{
}

} // verus!
