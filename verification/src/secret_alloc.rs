//! Process-wide secret-memory allocation policy: a write-once selector and
//! the typed containers that route their backing store through it.

use vstd::prelude::*;

verus! {

/// The strategy used to obtain memory that may hold cryptographic secrets.
#[derive(Debug, Clone, Copy, PartialEq, Eq, Structural)]
pub enum SecretAllocType {
    /// Ordinary heap allocation with the pages pinned and zeroed on release.
    MemsecMalloc,
    /// Anonymous secret-memory file descriptor; admissible on Linux only.
    MemsecMemfdSec,
}

/// Why installing a policy was refused.
#[derive(Debug, Clone, Copy, PartialEq, Eq, Structural)]
pub enum PolicyError {
    /// The write-once selector already holds a value.
    AlreadyInstalled,
    /// The requested variant is not available on this platform.
    UnsupportedHere,
}

/// Whether `v` can be installed at all: the malloc-backed variant is
/// universally available, the secret-memfd variant only where the platform
/// supports it.
pub open spec fn policy_admissible(memfd_supported: bool, v: SecretAllocType) -> bool {
    v == SecretAllocType::MemsecMalloc || memfd_supported
}

/// The write-once selector: transitions at most once from unset to set and
/// reads back the same value ever after.
pub struct SecretAllocCell {
    value: Option<SecretAllocType>,
    memfd_supported: bool,
}

impl SecretAllocCell {
    /// The installed variant, if any.
    pub closed spec fn installed(&self) -> Option<SecretAllocType> {
        self.value
    }

    /// Whether this platform supports the secret-memfd variant.
    pub closed spec fn memfd_supported(&self) -> bool {
        self.memfd_supported
    }

    /// A fresh, unset selector. `memfd_supported` records whether the
    /// platform offers the secret-memfd allocation strategy.
    pub fn new(memfd_supported: bool) -> (c: Self)
        ensures
            c.installed() is None,
            c.memfd_supported() == memfd_supported,
    {
        SecretAllocCell { value: None, memfd_supported }
    }

    /// Reads the selector without changing it.
    pub fn get(&self) -> (r: Option<SecretAllocType>)
        ensures
            r == self.installed(),
    {
        self.value
    }
}

/// The selector state after `set_secret_alloc_type(v)` together with the
/// call's report, as a pure transition on the installed value.
pub open spec fn spec_install(
    state: Option<SecretAllocType>,
    memfd_supported: bool,
    v: SecretAllocType,
) -> (Option<SecretAllocType>, Result<(), PolicyError>) {
    if state is Some {
        (state, Err(PolicyError::AlreadyInstalled))
    } else if !policy_admissible(memfd_supported, v) {
        (state, Err(PolicyError::UnsupportedHere))
    } else {
        (Some(v), Ok(()))
    }
}

/// Sets the secret allocation type to use.
/// Intended usage at startup before secret allocation takes place.
///
/// The first successful call wins; a later call is refused with
/// `AlreadyInstalled` and leaves the selector unchanged, and a variant the
/// platform cannot back is refused with `UnsupportedHere`.
pub fn set_secret_alloc_type(
    cell: &mut SecretAllocCell,
    alloc_type: SecretAllocType,
) -> (r: Result<(), PolicyError>)
    ensures
        (final(cell).installed(), r) == spec_install(
            old(cell).installed(),
            old(cell).memfd_supported(),
            alloc_type,
        ),
        final(cell).memfd_supported() == old(cell).memfd_supported(),
{
    match cell.value {
        Some(_) => Err(PolicyError::AlreadyInstalled),
        None => {
            if alloc_type == SecretAllocType::MemsecMemfdSec && !cell.memfd_supported {
                Err(PolicyError::UnsupportedHere)
            } else {
                cell.value = Some(alloc_type);
                Ok(())
            }
        },
    }
}

/// The selector state after `get_or_init_secret_alloc_type(v)` together with
/// the effective variant it reports.
pub open spec fn spec_get_or_init(
    state: Option<SecretAllocType>,
    v: SecretAllocType,
) -> (Option<SecretAllocType>, SecretAllocType) {
    match state {
        Some(cur) => (state, cur),
        None => (Some(v), v),
    }
}

/// Returns the installed variant, installing `alloc_type` first if the
/// selector is still unset.
pub fn get_or_init_secret_alloc_type(
    cell: &mut SecretAllocCell,
    alloc_type: SecretAllocType,
) -> (r: SecretAllocType)
    ensures
        (final(cell).installed(), r) == spec_get_or_init(old(cell).installed(), alloc_type),
        final(cell).memfd_supported() == old(cell).memfd_supported(),
        final(cell).installed() == Some(r),
{
    match cell.value {
        Some(cur) => cur,
        None => {
            cell.value = Some(alloc_type);
            alloc_type
        },
    }
}

/// An allocation for a secret container failed in the backing allocator.
#[derive(Debug, Clone, Copy, PartialEq, Eq, Structural)]
pub struct AllocFailed;

#[verifier::external_type_specification]
#[verifier::external_body]
pub struct ExAllocError(allocator_api2::alloc::AllocError);

/// Relies on `allocator_api2::boxed::Box`: `new_in` places `x` into a fresh
/// allocation of the given allocator, and `into_inner` moves the placed
/// value back out unchanged, so the round trip returns exactly `x`.
#[verifier::external_body]
fn heap_move<T>(x: T) -> (r: T)
    ensures
        r == x,
{
    let b = allocator_api2::boxed::Box::new_in(x, allocator_api2::alloc::Global);
    allocator_api2::boxed::Box::into_inner(b)
}

/// Relies on `allocator_api2::boxed::Box`: `try_new_in` either places `x`
/// into a fresh allocation of the given allocator or reports that the
/// allocator refused the request; `into_inner` moves the placed value back
/// out unchanged.
#[verifier::external_body]
fn heap_move_try<T>(x: T) -> (r: Result<T, allocator_api2::alloc::AllocError>)
    ensures
        r matches Ok(v) ==> v == x,
{
    match allocator_api2::boxed::Box::try_new_in(x, allocator_api2::alloc::Global) {
        Ok(b) => Ok(allocator_api2::boxed::Box::into_inner(b)),
        Err(e) => Err(e),
    }
}

/// A single heap-resident value whose backing store was obtained under the
/// installed secret-memory policy. Ownership is exclusive; the only way to
/// build one is through `secret_box` or `secret_box_try`, so no container
/// predates the policy decision.
pub struct SecretBox<T> {
    value: T,
    alloc_type: SecretAllocType,
}

impl<T> View for SecretBox<T> {
    type V = T;

    closed spec fn view(&self) -> T {
        self.value
    }
}

impl<T> SecretBox<T> {
    /// The policy this container was allocated under.
    pub closed spec fn alloc_type_spec(&self) -> SecretAllocType {
        self.alloc_type
    }

    /// Borrows the held value.
    pub fn get(&self) -> (r: &T)
        ensures
            *r == self@,
    {
        &self.value
    }

    /// Consumes the container and hands the held value back.
    pub fn into_inner(self) -> (r: T)
        ensures
            r == self@,
    {
        self.value
    }

    /// The policy this container was allocated under.
    pub fn alloc_type(&self) -> (r: SecretAllocType)
        ensures
            r == self.alloc_type_spec(),
    {
        self.alloc_type
    }
}

/// Moves `x` into a secret container whose backing store comes from the
/// installed policy.
pub fn secret_box<T>(cell: &SecretAllocCell, x: T) -> (b: SecretBox<T>)
    requires
        cell.installed() is Some,
    ensures
        b@ == x,
        cell.installed() == Some(b.alloc_type_spec()),
{
    let alloc_type = cell.get().unwrap();
    let value = heap_move(x);
    SecretBox { value, alloc_type }
}

/// Fallible counterpart of `secret_box`: reports `AllocFailed` when the
/// backing allocator refuses the request, and otherwise routes the value
/// through the installed policy exactly as `secret_box` does.
pub fn secret_box_try<T>(cell: &SecretAllocCell, x: T) -> (r: Result<SecretBox<T>, AllocFailed>)
    requires
        cell.installed() is Some,
    ensures
        r matches Ok(b) ==> b@ == x && cell.installed() == Some(b.alloc_type_spec()),
{
    let alloc_type = cell.get().unwrap();
    match heap_move_try(x) {
        Ok(value) => Ok(SecretBox { value, alloc_type }),
        Err(_) => Err(AllocFailed),
    }
}

/// An ordered, growable sequence whose backing store is bound to the
/// installed secret-memory policy. Built empty through `secret_vec`, so no
/// buffer predates the policy decision.
pub struct SecretVec<T> {
    data: Vec<T>,
    alloc_type: SecretAllocType,
}

impl<T> View for SecretVec<T> {
    type V = Seq<T>;

    closed spec fn view(&self) -> Seq<T> {
        self.data@
    }
}

impl<T> SecretVec<T> {
    /// The policy this buffer was allocated under.
    pub closed spec fn alloc_type_spec(&self) -> SecretAllocType {
        self.alloc_type
    }

    /// The policy this buffer was allocated under.
    pub fn alloc_type(&self) -> (r: SecretAllocType)
        ensures
            r == self.alloc_type_spec(),
    {
        self.alloc_type
    }

    /// Number of elements held.
    pub fn len(&self) -> (n: usize)
        ensures
            n == self@.len(),
    {
        self.data.len()
    }

    /// Appends `x` at the end.
    pub fn push(&mut self, x: T)
        ensures
            final(self)@ == old(self)@.push(x),
            final(self).alloc_type_spec() == old(self).alloc_type_spec(),
    {
        self.data.push(x);
    }

    /// Removes and returns the last element, if any.
    pub fn pop(&mut self) -> (r: Option<T>)
        ensures
            old(self)@.len() == 0 ==> r is None && final(self)@ == old(self)@,
            old(self)@.len() > 0 ==> r == Some(old(self)@.last())
                && final(self)@ == old(self)@.drop_last(),
            final(self).alloc_type_spec() == old(self).alloc_type_spec(),
    {
        if self.data.len() == 0 {
            None
        } else {
            Some(self.data.pop().unwrap())
        }
    }

    /// Borrows the element at `i`.
    pub fn get(&self, i: usize) -> (r: &T)
        requires
            i < self@.len(),
        ensures
            *r == self@[i as int],
    {
        &self.data[i]
    }
}

/// An empty secret buffer bound to the installed policy.
pub fn secret_vec<T>(cell: &SecretAllocCell) -> (v: SecretVec<T>)
    requires
        cell.installed() is Some,
    ensures
        v@ == Seq::<T>::empty(),
        cell.installed() == Some(v.alloc_type_spec()),
{
    let alloc_type = cell.get().unwrap();
    SecretVec { data: Vec::new(), alloc_type }
}

/// The selector after a whole sequence of `set_secret_alloc_type` attempts.
pub open spec fn run_installs(
    state: Option<SecretAllocType>,
    memfd_supported: bool,
    vs: Seq<SecretAllocType>,
) -> Option<SecretAllocType>
    decreases vs.len(),
{
    if vs.len() == 0 {
        state
    } else {
        run_installs(
            spec_install(state, memfd_supported, vs[0]).0,
            memfd_supported,
            vs.skip(1),
        )
    }
}

/// How many attempts of the sequence succeed.
pub open spec fn count_install_successes(
    state: Option<SecretAllocType>,
    memfd_supported: bool,
    vs: Seq<SecretAllocType>,
) -> nat
    decreases vs.len(),
{
    if vs.len() == 0 {
        0
    } else {
        let stepped = spec_install(state, memfd_supported, vs[0]);
        (if stepped.1 is Ok {
            1nat
        } else {
            0nat
        }) + count_install_successes(stepped.0, memfd_supported, vs.skip(1))
    }
}

/// The value of the first attempt in `vs` that the platform admits, if any.
pub open spec fn first_admissible(
    memfd_supported: bool,
    vs: Seq<SecretAllocType>,
) -> Option<SecretAllocType>
    decreases vs.len(),
{
    if vs.len() == 0 {
        None
    } else if policy_admissible(memfd_supported, vs[0]) {
        Some(vs[0])
    } else {
        first_admissible(memfd_supported, vs.skip(1))
    }
}

/// Once the selector holds a value, no later install attempt succeeds and
/// every read keeps returning that value.
pub proof fn lemma_installed_selector_is_stable(
    v: SecretAllocType,
    memfd_supported: bool,
    vs: Seq<SecretAllocType>,
)
    ensures
        run_installs(Some(v), memfd_supported, vs) == Some(v),
        count_install_successes(Some(v), memfd_supported, vs) == 0,
    decreases vs.len(),
{
    if vs.len() > 0 {
        lemma_installed_selector_is_stable(v, memfd_supported, vs.skip(1));
    }
}

/// Write-once law: starting from an unset selector, a whole sequence of
/// install attempts admits exactly one success — the first admissible value
/// — and the selector thereafter reads that value; with no admissible value
/// in the sequence nothing succeeds and the selector stays unset.
pub proof fn lemma_selector_write_once(memfd_supported: bool, vs: Seq<SecretAllocType>)
    ensures
        run_installs(None, memfd_supported, vs) == first_admissible(memfd_supported, vs),
        count_install_successes(None, memfd_supported, vs) == (
        if first_admissible(memfd_supported, vs) is Some {
            1nat
        } else {
            0nat
        }),
    decreases vs.len(),
{
    if vs.len() > 0 {
        if policy_admissible(memfd_supported, vs[0]) {
            lemma_installed_selector_is_stable(vs[0], memfd_supported, vs.skip(1));
        } else {
            lemma_selector_write_once(memfd_supported, vs.skip(1));
        }
    }
}

/// The results a run of `get_or_init_secret_alloc_type` probes reports, in
/// call order.
pub open spec fn get_or_init_results(
    state: Option<SecretAllocType>,
    vs: Seq<SecretAllocType>,
) -> Seq<SecretAllocType>
    decreases vs.len(),
{
    if vs.len() == 0 {
        Seq::empty()
    } else {
        let stepped = spec_get_or_init(state, vs[0]);
        seq![stepped.1] + get_or_init_results(stepped.0, vs.skip(1))
    }
}

/// A run of probes reports one result per probe.
pub proof fn lemma_get_or_init_results_len(
    state: Option<SecretAllocType>,
    vs: Seq<SecretAllocType>,
)
    ensures
        get_or_init_results(state, vs).len() == vs.len(),
    decreases vs.len(),
{
    if vs.len() > 0 {
        lemma_get_or_init_results_len(spec_get_or_init(state, vs[0]).0, vs.skip(1));
    }
}

/// From a set selector, every probe reports the held value.
pub proof fn lemma_probe_set_state(v: SecretAllocType, vs: Seq<SecretAllocType>)
    ensures
        forall|i: int|
            0 <= i < vs.len() ==> get_or_init_results(Some(v), vs)[i] == v,
    decreases vs.len(),
{
    if vs.len() > 0 {
        lemma_probe_set_state(v, vs.skip(1));
        lemma_get_or_init_results_len(Some(v), vs.skip(1));
        let rest = get_or_init_results(Some(v), vs.skip(1));
        assert(get_or_init_results(Some(v), vs) == seq![v] + rest);
        assert forall|i: int|
            0 <= i < vs.len() implies get_or_init_results(Some(v), vs)[i] == v by {
            if i > 0 {
                assert((seq![v] + rest)[i] == rest[i - 1]);
            }
        }
    }
}

/// Idempotent-probe law: whatever mix of values a run of probes carries,
/// every probe after the first reports the same effective variant as the
/// first one did.
pub proof fn lemma_get_or_init_idempotent(
    state: Option<SecretAllocType>,
    vs: Seq<SecretAllocType>,
)
    requires
        vs.len() > 0,
    ensures
        forall|i: int|
            0 <= i < vs.len() ==> #[trigger] get_or_init_results(state, vs)[i]
                == get_or_init_results(state, vs)[0],
    decreases vs.len(),
{
    let stepped = spec_get_or_init(state, vs[0]);
    let rest = get_or_init_results(stepped.0, vs.skip(1));
    lemma_get_or_init_results_len(stepped.0, vs.skip(1));
    lemma_probe_set_state(stepped.1, vs.skip(1));
    assert(stepped.0 == Some(stepped.1));
    assert(get_or_init_results(state, vs) == seq![stepped.1] + rest);
    assert forall|i: int|
        0 <= i < vs.len() implies #[trigger] get_or_init_results(state, vs)[i]
        == get_or_init_results(state, vs)[0] by {
        assert(get_or_init_results(state, vs)[0] == stepped.1);
        if i > 0 {
            assert((seq![stepped.1] + rest)[i] == rest[i - 1]);
            assert(rest[i - 1] == stepped.1);
        }
    }
}

} // verus!
