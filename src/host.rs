use vstd::prelude::*;
use vstd::string::StringSliceAdditionalSpecFns;
use vstd::utf8::encode_utf8;
use crate::error::{IronCoreError, IronCoreResult};
use crate::hresult::{hresult_of, is_success, HRESULT};
use crate::marshal::{c_buffer, has_nul, to_c_string, vec2cstring};

verus! {

/// The engine's opaque host context. No value of it is made on this side:
/// only pointers that the engine hands out are held.
pub struct CoreClrHostHandle {
    _private: (),
}

/// Identifier of an execution domain inside the engine.
pub type CoreClrDomainId = u32;

/// Friendly name given to the domain that the host creates.
pub const DOMAIN_FRIENDLY_NAME: &'static str = "Rust CLR Host";

/// Value of the compatibility switch property.
pub const COMPAT_SWITCH_VALUE: &'static str = "UseLatestBehaviorWhenTFMNotSpecified";

/// The keys of the configuration properties, in the order the engine gets them.
pub open spec fn property_key_list() -> Seq<Seq<char>> {
    seq![
        "TRUSTED_PLATFORM_ASSEMBLIES"@,
        "APP_PATHS"@,
        "APP_NI_PATHS"@,
        "NATIVE_DLL_SEARCH_DIRECTORIES"@,
        "AppDomainCompatSwitch"@,
    ]
}

/// The values of the configuration properties, index for index with the keys.
pub open spec fn property_value_list(
    trusted: Seq<char>,
    app_paths: Seq<char>,
    app_ni_paths: Seq<char>,
    native_dirs: Seq<char>,
) -> Seq<Seq<char>> {
    seq![trusted, app_paths, app_ni_paths, native_dirs, COMPAT_SWITCH_VALUE@]
}

/// The property keys, in order.
pub fn property_keys() -> (r: Vec<&'static str>)
    ensures
        r@.map_values(|s: &str| s@) == property_key_list(),
{
    let r = vec![
        "TRUSTED_PLATFORM_ASSEMBLIES",
        "APP_PATHS",
        "APP_NI_PATHS",
        "NATIVE_DLL_SEARCH_DIRECTORIES",
        "AppDomainCompatSwitch",
    ];
    assert(r@.map_values(|s: &str| s@) == property_key_list());
    r
}

/// The property values for the given trusted-assembly list and path lists.
pub fn property_values<'a>(
    trusted: &'a str,
    app_paths: &'a str,
    app_ni_paths: &'a str,
    native_dirs: &'a str,
) -> (r: Vec<&'a str>)
    ensures
        r@.map_values(|s: &str| s@) == property_value_list(
            trusted@,
            app_paths@,
            app_ni_paths@,
            native_dirs@,
        ),
{
    let r = vec![trusted, app_paths, app_ni_paths, native_dirs, COMPAT_SWITCH_VALUE];
    assert(r@.map_values(|s: &str| s@) == property_value_list(
        trusted@,
        app_paths@,
        app_ni_paths@,
        native_dirs@,
    ));
    r
}


/// Whether none of the texts holds a zero byte once encoded.
pub open spec fn all_nul_free(texts: Seq<Seq<char>>) -> bool {
    forall|i: int| 0 <= i < texts.len() ==> !has_nul(#[trigger] encode_utf8(texts[i]))
}

/// Whether `bufs` are the null-terminated buffers of `texts`, one for each.
pub open spec fn buffers_of(bufs: Seq<Vec<u8>>, texts: Seq<Seq<char>>) -> bool {
    &&& bufs.len() == texts.len()
    &&& forall|i: int| 0 <= i < texts.len() ==> #[trigger] bufs[i]@ == c_buffer(encode_utf8(texts[i]))
}

/// Every text that the initialize call receives, in the order they are
/// marshaled: the executable path, the domain name, the keys, the values.
pub open spec fn init_texts(
    exe: Seq<char>,
    trusted: Seq<char>,
    app_paths: Seq<char>,
    app_ni_paths: Seq<char>,
    native_dirs: Seq<char>,
) -> Seq<Seq<char>> {
    seq![exe, DOMAIN_FRIENDLY_NAME@] + property_key_list() + property_value_list(
        trusted,
        app_paths,
        app_ni_paths,
        native_dirs,
    )
}

/// The buffers handed to the native initialize call.
pub struct InitRequest {
    pub exe_path: Vec<u8>,
    pub friendly_name: Vec<u8>,
    pub property_keys: Vec<Vec<u8>>,
    pub property_values: Vec<Vec<u8>>,
}

/// The buffers handed to the native execute-assembly call.
pub struct ExecRequest {
    pub assembly: Vec<u8>,
    pub args: Vec<Vec<u8>>,
}

/// The buffers handed to the native create-delegate call.
pub struct DelegateRequest {
    pub assembly_name: Vec<u8>,
    pub class_name: Vec<u8>,
    pub method_name: Vec<u8>,
}

proof fn lemma_views_of_strs(strs: Seq<&str>, texts: Seq<Seq<char>>)
    requires
        strs.map_values(|s: &str| s@) == texts,
    ensures
        strs.len() == texts.len(),
        forall|i: int| 0 <= i < strs.len() ==> #[trigger] strs[i].spec_bytes() == encode_utf8(texts[i]),
{
    assert forall|i: int| 0 <= i < strs.len() implies #[trigger] strs[i].spec_bytes() == encode_utf8(texts[i]) by {
        assert(strs.map_values(|s: &str| s@)[i] == strs[i]@);
    }
}

/// Marshals everything that the initialize call receives. Fails with
/// `InvalidExePath` when the executable's path is not available as text, and
/// with `NulError` when one of the texts holds a zero byte.
pub fn prepare_initialize(
    exe_path: Option<&str>,
    trusted: &str,
    app_paths: &str,
    app_ni_paths: &str,
    native_dirs: &str,
) -> (r: IronCoreResult<InitRequest>)
    ensures
        exe_path is None ==> r matches Err(IronCoreError::InvalidExePath),
        exe_path matches Some(x) ==> (r is Ok <==> all_nul_free(
            init_texts(x@, trusted@, app_paths@, app_ni_paths@, native_dirs@),
        )),
        exe_path matches Some(x) ==> (r matches Err(e) ==> e is NulError),
        r matches Ok(req) ==> {
            &&& exe_path matches Some(x)
            &&& req.exe_path@ == c_buffer(x.spec_bytes())
            &&& req.friendly_name@ == c_buffer(encode_utf8(DOMAIN_FRIENDLY_NAME@))
            &&& buffers_of(req.property_keys@, property_key_list())
            &&& buffers_of(
                req.property_values@,
                property_value_list(trusted@, app_paths@, app_ni_paths@, native_dirs@),
            )
        },
{
    let exe = match exe_path {
        Some(x) => x,
        None => {
            return Err(IronCoreError::InvalidExePath);
        },
    };
    let ghost texts = init_texts(exe@, trusted@, app_paths@, app_ni_paths@, native_dirs@);
    let ghost keys_t = property_key_list();
    let ghost values_t = property_value_list(trusted@, app_paths@, app_ni_paths@, native_dirs@);
    assert(texts[0] == exe@);
    assert(texts[1] == DOMAIN_FRIENDLY_NAME@);
    assert forall|i: int| 0 <= i < 5 implies texts[2 + i] == #[trigger] keys_t[i] && texts[7 + i]
        == values_t[i] by {}
    assert(texts.len() == 12);
    let exe_buf = match to_c_string(exe) {
        Ok(b) => b,
        Err(e) => {
            assert(!all_nul_free(texts));
            return Err(IronCoreError::NulError(e));
        },
    };
    let name_buf = match to_c_string(DOMAIN_FRIENDLY_NAME) {
        Ok(b) => b,
        Err(e) => {
            assert(!all_nul_free(texts));
            return Err(IronCoreError::NulError(e));
        },
    };
    let keys = property_keys();
    let ghost ks = keys@;
    proof {
        lemma_views_of_strs(keys@, keys_t);
    }
    let key_bufs = match vec2cstring(keys) {
        Ok(b) => b,
        Err(e) => {
            assert(!all_nul_free(texts)) by {
                let i = choose|i: int| 0 <= i < 5 && has_nul(#[trigger] encode_utf8(keys_t[i]));
                assert(texts[2 + i] == keys_t[i]);
            }
            return Err(e);
        },
    };
    let values = property_values(trusted, app_paths, app_ni_paths, native_dirs);
    let ghost vs = values@;
    proof {
        lemma_views_of_strs(values@, values_t);
    }
    let value_bufs = match vec2cstring(values) {
        Ok(b) => b,
        Err(e) => {
            assert(!all_nul_free(texts)) by {
                let i = choose|i: int| 0 <= i < 5 && has_nul(#[trigger] encode_utf8(values_t[i]));
                assert(texts[7 + i] == values_t[i]);
            }
            return Err(e);
        },
    };
    assert(all_nul_free(texts)) by {
        assert forall|i: int| 0 <= i < texts.len() implies !has_nul(#[trigger] encode_utf8(texts[i])) by {
            if i >= 7 {
                assert(texts[i] == values_t[i - 7]);
                assert(vs[i - 7].spec_bytes() == encode_utf8(values_t[i - 7]));
            } else if i >= 2 {
                assert(texts[i] == keys_t[i - 2]);
                assert(ks[i - 2].spec_bytes() == encode_utf8(keys_t[i - 2]));
            }
        }
    }
    assert(buffers_of(key_bufs@, keys_t)) by {
        assert forall|i: int| 0 <= i < 5 implies #[trigger] key_bufs@[i]@ == c_buffer(encode_utf8(keys_t[i])) by {
            assert(ks[i].spec_bytes() == encode_utf8(keys_t[i]));
        }
    }
    assert(buffers_of(value_bufs@, values_t)) by {
        assert forall|i: int| 0 <= i < 5 implies #[trigger] value_bufs@[i]@ == c_buffer(encode_utf8(values_t[i])) by {
            assert(vs[i].spec_bytes() == encode_utf8(values_t[i]));
        }
    }
    Ok(InitRequest {
        exe_path: exe_buf,
        friendly_name: name_buf,
        property_keys: key_bufs,
        property_values: value_bufs,
    })
}


/// Marshals the assembly path and the arguments of an execute-assembly call.
/// The path is checked first, then each argument in turn.
pub fn prepare_execute(assembly: &str, args: Vec<&str>) -> (r: IronCoreResult<ExecRequest>)
    ensures
        r is Ok <==> !has_nul(assembly.spec_bytes()) && all_nul_free(
            args@.map_values(|s: &str| s@),
        ),
        r matches Err(e) ==> e is NulError,
        r matches Ok(req) ==> {
            &&& req.assembly@ == c_buffer(assembly.spec_bytes())
            &&& buffers_of(req.args@, args@.map_values(|s: &str| s@))
        },
{
    let ghost texts = args@.map_values(|s: &str| s@);
    let ghost strs = args@;
    proof {
        lemma_views_of_strs(strs, texts);
    }
    let assembly_buf = match to_c_string(assembly) {
        Ok(b) => b,
        Err(e) => {
            return Err(IronCoreError::NulError(e));
        },
    };
    let arg_bufs = match vec2cstring(args) {
        Ok(b) => b,
        Err(e) => {
            assert(!all_nul_free(texts)) by {
                let i = choose|i: int|
                    0 <= i < strs.len() && has_nul(#[trigger] strs[i].spec_bytes());
                assert(strs[i].spec_bytes() == encode_utf8(texts[i]));
            }
            return Err(e);
        },
    };
    assert(all_nul_free(texts)) by {
        assert forall|i: int| 0 <= i < texts.len() implies !has_nul(#[trigger] encode_utf8(texts[i])) by {
            assert(strs[i].spec_bytes() == encode_utf8(texts[i]));
        }
    }
    assert(buffers_of(arg_bufs@, texts)) by {
        assert forall|i: int| 0 <= i < texts.len() implies #[trigger] arg_bufs@[i]@ == c_buffer(encode_utf8(texts[i])) by {
            assert(strs[i].spec_bytes() == encode_utf8(texts[i]));
        }
    }
    Ok(ExecRequest { assembly: assembly_buf, args: arg_bufs })
}

/// Marshals the three names of a create-delegate call, each checked on its
/// own, in the order assembly, type, method.
pub fn prepare_delegate(assembly_name: &str, class_name: &str, method_name: &str) -> (r:
    IronCoreResult<DelegateRequest>)
    ensures
        r is Ok <==> !has_nul(assembly_name.spec_bytes()) && !has_nul(class_name.spec_bytes())
            && !has_nul(method_name.spec_bytes()),
        r matches Err(e) ==> e is NulError,
        r matches Ok(req) ==> {
            &&& req.assembly_name@ == c_buffer(assembly_name.spec_bytes())
            &&& req.class_name@ == c_buffer(class_name.spec_bytes())
            &&& req.method_name@ == c_buffer(method_name.spec_bytes())
        },
{
    let a = match to_c_string(assembly_name) {
        Ok(b) => b,
        Err(e) => {
            return Err(IronCoreError::NulError(e));
        },
    };
    let t = match to_c_string(class_name) {
        Ok(b) => b,
        Err(e) => {
            return Err(IronCoreError::NulError(e));
        },
    };
    let m = match to_c_string(method_name) {
        Ok(b) => b,
        Err(e) => {
            return Err(IronCoreError::NulError(e));
        },
    };
    Ok(DelegateRequest { assembly_name: a, class_name: t, method_name: m })
}

/// Where a host instance stands in its life.
#[derive(Debug, Clone, Copy, PartialEq, Eq, Structural)]
pub enum HostState {
    /// The initialize call has not succeeded (yet).
    Unconstructed,
    /// The engine is initialized, with the given domain.
    Initialized { domain_id: CoreClrDomainId },
    /// Shutdown has been issued; no native call may follow.
    ShutDown,
}

/// The state after the initialize call returned `status` and `domain_id`.
pub open spec fn init_step(s: HostState, status: u32, domain_id: u32) -> HostState {
    if s is Unconstructed && is_success(hresult_of(status)) {
        HostState::Initialized { domain_id }
    } else {
        s
    }
}

/// The state after the owner releases the instance, and whether the native
/// shutdown is to be called.
pub open spec fn release_step(s: HostState) -> (HostState, bool) {
    match s {
        HostState::Initialized { .. } => (HostState::ShutDown, true),
        _ => (HostState::ShutDown, false),
    }
}

/// What can happen to a live instance.
pub enum HostEvent {
    /// An execute-assembly call returned this status.
    Executed { status: u32 },
    /// A create-delegate call returned this status.
    DelegateCreated { status: u32 },
    /// The owner released the instance.
    Released,
}

/// The state after a run of events, and how many native shutdown calls the
/// run issued.
pub open spec fn run_events(s: HostState, events: Seq<HostEvent>) -> (HostState, nat)
    decreases events.len(),
{
    if events.len() == 0 {
        (s, 0)
    } else {
        let (prev, calls) = run_events(s, events.drop_last());
        match events.last() {
            HostEvent::Released => {
                let (next, call) = release_step(prev);
                (next, calls + if call { 1nat } else { 0nat })
            },
            _ => (prev, calls),
        }
    }
}

/// The decisions of a host instance's life, from construction to shutdown.
/// The native calls themselves are made by the caller, which reports what
/// each returned.
pub struct HostSession {
    state: HostState,
}

impl HostSession {
    pub closed spec fn state(&self) -> HostState {
        self.state
    }

    pub fn new() -> (r: HostSession)
        ensures
            r.state() == HostState::Unconstructed,
    {
        HostSession { state: HostState::Unconstructed }
    }

    /// Whether native calls may be made through this session.
    pub fn is_live(&self) -> (r: bool)
        ensures
            r == self.state() is Initialized,
    {
        match self.state {
            HostState::Initialized { .. } => true,
            _ => false,
        }
    }

    /// The domain that the engine assigned at initialization.
    pub fn domain_id(&self) -> (r: CoreClrDomainId)
        requires
            self.state() is Initialized,
        ensures
            self.state() == (HostState::Initialized { domain_id: r }),
    {
        match self.state {
            HostState::Initialized { domain_id } => domain_id,
            _ => 0,
        }
    }

    /// Takes in what the initialize call returned. The session is live
    /// afterwards exactly when the status succeeded; otherwise the status is
    /// the error.
    pub fn on_initialized(&mut self, status: u32, domain_id: u32) -> (r: IronCoreResult<()>)
        requires
            old(self).state() is Unconstructed,
        ensures
            final(self).state() == init_step(old(self).state(), status, domain_id),
            is_success(hresult_of(status)) ==> r is Ok,
            !is_success(hresult_of(status)) ==> (r matches Err(IronCoreError::HresultError(h))
                && h == hresult_of(status)),
    {
        let hr = HRESULT::from(status);
        match hr.check() {
            Ok(()) => {
                self.state = HostState::Initialized { domain_id };
                Ok(())
            },
            Err(e) => Err(e),
        }
    }

    /// Takes in what an execute-assembly call returned: the managed exit
    /// code on success, the status as error otherwise.
    pub fn on_executed(&self, status: u32, exit_code: u32) -> (r: IronCoreResult<u32>)
        requires
            self.state() is Initialized,
        ensures
            is_success(hresult_of(status)) ==> r == Ok::<u32, IronCoreError>(exit_code),
            !is_success(hresult_of(status)) ==> (r matches Err(IronCoreError::HresultError(h))
                && h == hresult_of(status)),
    {
        match HRESULT::from(status).check() {
            Ok(()) => Ok(exit_code),
            Err(e) => Err(e),
        }
    }

    /// Takes in what a create-delegate call returned.
    pub fn on_delegate_created(&self, status: u32) -> (r: IronCoreResult<()>)
        requires
            self.state() is Initialized,
        ensures
            is_success(hresult_of(status)) ==> r is Ok,
            !is_success(hresult_of(status)) ==> (r matches Err(IronCoreError::HresultError(h))
                && h == hresult_of(status)),
    {
        HRESULT::from(status).check()
    }

    /// The owner lets the instance go. Returns whether the native shutdown
    /// is to be called now; after this, no native call may follow.
    pub fn on_release(&mut self) -> (r: bool)
        ensures
            (final(self).state(), r) == release_step(old(self).state()),
    {
        let live = self.is_live();
        self.state = HostState::ShutDown;
        live
    }
}

/// An instance whose initialize call failed never becomes live, so no
/// execute, create-delegate or shutdown call is made for it, whatever
/// happens next.
pub proof fn lemma_failed_init_stays_down(status: u32, domain_id: u32, events: Seq<HostEvent>)
    requires
        !is_success(hresult_of(status)),
    ensures
        init_step(HostState::Unconstructed, status, domain_id) == HostState::Unconstructed,
        run_events(HostState::Unconstructed, events).1 == 0,
        !(run_events(HostState::Unconstructed, events).0 is Initialized),
    decreases events.len(),
{
    if events.len() > 0 {
        lemma_failed_init_stays_down(status, domain_id, events.drop_last());
    }
}

/// A live instance issues the native shutdown exactly once over any run of
/// events in which it is released, whatever the earlier calls returned; and
/// not at all before it is released.
pub proof fn lemma_shutdown_once(domain_id: u32, events: Seq<HostEvent>)
    ensures
        (exists|i: int| 0 <= i < events.len() && events[i] is Released) ==> {
            &&& run_events(HostState::Initialized { domain_id }, events).1 == 1
            &&& run_events(HostState::Initialized { domain_id }, events).0 == HostState::ShutDown
        },
        (forall|i: int| 0 <= i < events.len() ==> !(events[i] is Released)) ==> {
            &&& run_events(HostState::Initialized { domain_id }, events).1 == 0
            &&& run_events(HostState::Initialized { domain_id }, events).0 == (HostState::Initialized {
                domain_id,
            })
        },
    decreases events.len(),
{
    if events.len() > 0 {
        let prefix = events.drop_last();
        lemma_shutdown_once(domain_id, prefix);
        assert forall|i: int| 0 <= i < prefix.len() implies prefix[i] == events[i] by {}
        if exists|i: int| 0 <= i < prefix.len() && prefix[i] is Released {
            let i = choose|i: int| 0 <= i < prefix.len() && prefix[i] is Released;
            assert(events[i] is Released);
        } else if events.last() is Released {
            assert(events[events.len() - 1] is Released);
        } else {
            assert forall|i: int| 0 <= i < events.len() implies !(events[i] is Released) by {
                if i < prefix.len() {
                    assert(events[i] == prefix[i]);
                }
            }
        }
    }
}

} // verus!
