//! Device-related types.
//!
//! This module defines `Device` and `Builder`.  A device owns an ordered list of
//! backends and negotiates buffer classes across them.

use vstd::prelude::*;

use crate::backends::Backend;
use crate::backends::Class;
use crate::backends::Constraint;
use crate::backends::Description;
use crate::backends::Extent;
use crate::backends::Usage;
use crate::types::Error;
use crate::types::Format;
use crate::types::Modifier;
use std::sync::Arc;

verus! {

/// A device.
///
/// A device consists of one or more backends to interact with the underlying
/// subsystems and hardware.  The backend list is fixed at build time.
pub struct Device<B: Backend> {
    /// The ordered backends; read-only once built.
    pub backends: Vec<B>,
}

/// Whether any report in the first `upto` slots contributes.
pub open spec fn any_report(reports: Seq<Option<Class>>, upto: int) -> bool {
    exists|i: int| 0 <= i < upto && reports[i] is Some
}

/// Whether a modifier is supported by every contributing report in the first `upto`
/// slots.
pub open spec fn in_all_reports(reports: Seq<Option<Class>>, upto: int, m: Modifier) -> bool {
    forall|i: int|
        0 <= i < upto ==> (#[trigger] reports[i] matches Some(b) ==> b.modifiers@.contains(m))
}

/// The intersection of the maximal extents of the contributing reports in the first
/// `n` slots, starting from the maximal extent of the description's kind.
pub open spec fn fold_extent(desc: Description, reports: Seq<Option<Class>>, n: int) -> Extent
    decreases n,
{
    if n <= 0 {
        if desc.spec_is_buffer() {
            Extent::Buffer(u64::MAX)
        } else {
            Extent::Image(u32::MAX, u32::MAX)
        }
    } else {
        match reports[n - 1] {
            Some(b) => fold_extent(desc, reports, n - 1).spec_intersect(b.max_extent),
            None => fold_extent(desc, reports, n - 1),
        }
    }
}

/// How many contributing reports in the first `n` slots demand exact layout knowledge.
pub open spec fn unknown_count(reports: Seq<Option<Class>>, n: int) -> int
    decreases n,
{
    if n <= 0 {
        0
    } else {
        unknown_count(reports, n - 1) + match reports[n - 1] {
            Some(b) => if b.unknown_constraint {
                1int
            } else {
                0int
            },
            None => 0int,
        }
    }
}

/// The first report in the first `n` slots that demands exact layout knowledge.
pub open spec fn first_unknown(reports: Seq<Option<Class>>, n: int) -> Option<int>
    decreases n,
{
    if n <= 0 {
        None
    } else {
        match first_unknown(reports, n - 1) {
            Some(j) => Some(j),
            None => match reports[n - 1] {
                Some(b) => if b.unknown_constraint {
                    Some(n - 1)
                } else {
                    None
                },
                None => None,
            },
        }
    }
}

/// The backend a merged class is serviced by: the layout-dictating backend if any,
/// else the first backend.
pub open spec fn merged_backend_index(reports: Seq<Option<Class>>) -> int {
    match first_unknown(reports, reports.len() as int) {
        Some(j) => j,
        None => 0,
    }
}

/// One step of the running constraint merge: take the larger of each alignment when it
/// is an exact multiple of the smaller, and the one non-empty modifier allowlist.
pub open spec fn merge_cons_step(st: (int, int, int, Seq<Modifier>), c: Constraint) -> Option<
    (int, int, int, Seq<Modifier>),
> {
    if crate::backends::align_compat(st.0 as u64, c.offset_align) && crate::backends::align_compat(
        st.1 as u64,
        c.stride_align,
    ) && crate::backends::align_compat(st.2 as u64, c.size_align) && !(st.3.len() > 0
        && c.modifiers@.len() > 0) {
        Some(
            (
                crate::backends::align_merged(st.0 as u64, c.offset_align) as int,
                crate::backends::align_merged(st.1 as u64, c.stride_align) as int,
                crate::backends::align_merged(st.2 as u64, c.size_align) as int,
                if c.modifiers@.len() > 0 {
                    c.modifiers@
                } else {
                    st.3
                },
            ),
        )
    } else {
        None
    }
}

/// The running merge of the constraints of the contributing reports in the first `n`
/// slots, or nothing when two of them cannot be honored together.
pub open spec fn fold_cons(reports: Seq<Option<Class>>, n: int) -> Option<
    (int, int, int, Seq<Modifier>),
>
    decreases n,
{
    if n <= 0 {
        Some((1int, 1int, 1int, Seq::<Modifier>::empty()))
    } else {
        match fold_cons(reports, n - 1) {
            None => None,
            Some(st) => match reports[n - 1] {
                Some(b) => match b.constraint {
                    Some(c) => merge_cons_step(st, c),
                    None => Some(st),
                },
                None => Some(st),
            },
        }
    }
}

/// Whether merging the reports of the contributing backends succeeds: the merged
/// extent is non-empty, an image keeps at least one common modifier, at most one
/// backend demands exact layout knowledge, and the constraints merge.
pub open spec fn spec_merge_ok(desc: Description, reports: Seq<Option<Class>>) -> bool {
    let n = reports.len() as int;
    &&& !fold_extent(desc, reports, n).spec_is_empty()
    &&& (!desc.spec_is_buffer() ==> any_report(reports, n) && exists|m: Modifier|
        in_all_reports(reports, n, m))
    &&& unknown_count(reports, n) <= 1
    &&& fold_cons(reports, n) is Some
}

/// A `None` in the running constraint merge never recovers.
proof fn lemma_fold_cons_none(reports: Seq<Option<Class>>, n: int, m: int)
    requires
        0 <= n <= m,
        fold_cons(reports, n) is None,
    ensures
        fold_cons(reports, m) is None,
    decreases m - n,
{
    if n < m {
        lemma_fold_cons_none(reports, n, m - 1);
    }
}

/// The count of layout-dictating reports never decreases as more slots are seen.
proof fn lemma_unknown_count_mono(reports: Seq<Option<Class>>, n: int, m: int)
    requires
        0 <= n <= m,
    ensures
        unknown_count(reports, n) <= unknown_count(reports, m),
    decreases m - n,
{
    if n < m {
        lemma_unknown_count_mono(reports, n, m - 1);
    }
}

/// Merges the classification reports of a device's backends into one class, as
/// multi-backend classification does.
///
/// `reports` holds one entry per backend: the backend's own class for the description
/// where its usage slot is used, and nothing where it is unused.
///
/// The merged class's maximal extent is at most every contributing report's maximal
/// extent, and, for an image, its modifier list holds exactly the modifiers every
/// contributing report supports.
#[verifier::loop_isolation(false)]
#[verifier::rlimit(40)]
pub fn merge_classes(desc: Description, usage: &[Usage], reports: &Vec<Option<Class>>) -> (r:
    Result<Class, Error>)
    requires
        desc.spec_is_valid(),
        usage@.len() == reports@.len(),
        reports@.len() >= 1,
        forall|i: int|
            0 <= i < reports@.len() ==> (#[trigger] reports@[i] matches Some(b) ==> b.wf()
                && b.format == desc.format),
    ensures
        r is Ok <==> spec_merge_ok(desc, reports@),
        r matches Err(e) ==> e is Unsupported || e is Context,
        r matches Err(e) && e is Context ==> fold_cons(reports@, reports@.len() as int) is None,
        r matches Err(e) && e is Unsupported ==> {
            let n = reports@.len() as int;
            ||| unknown_count(reports@, n) >= 2
            ||| fold_extent(desc, reports@, n).spec_is_empty()
            ||| (!desc.spec_is_buffer() && !(any_report(reports@, n) && exists|m: Modifier|
                in_all_reports(reports@, n, m)))
        },
        r matches Ok(c) ==> {
            &&& c.wf()
            &&& c.flags == desc.flags
            &&& c.format == desc.format
            &&& c.unknown_constraint == false
            &&& c.backend_index == merged_backend_index(reports@)
            &&& c.backend_index < reports@.len()
            &&& c.usage == usage@[c.backend_index as int]
            &&& c.max_extent == fold_extent(desc, reports@, reports@.len() as int)
            &&& forall|i: int|
                0 <= i < reports@.len() ==> (#[trigger] reports@[i] matches Some(b)
                    ==> c.max_extent.spec_le(b.max_extent))
            &&& c.modifiers@.no_duplicates()
            &&& (!desc.spec_is_buffer() ==> forall|m: Modifier| #[trigger]
                c.modifiers@.contains(m) <==> in_all_reports(
                    reports@,
                    reports@.len() as int,
                    m,
                ))
            &&& (desc.spec_is_buffer() ==> c.modifiers@.len() == 0)
            &&& c.constraint matches Some(cc) && fold_cons(reports@, reports@.len() as int)
                == Some(
                (
                    cc.offset_align as int,
                    cc.stride_align as int,
                    cc.size_align as int,
                    cc.modifiers@,
                ),
            )
        },
{
    let n = reports.len();
    let mut max_extent = Extent::max(desc.is_buffer());
    let mut mods: Option<Vec<Modifier>> = None;
    let mut con = Constraint::new();
    let mut required_idx: Option<usize> = None;

    let mut i: usize = 0;
    while i < n
        invariant
            i <= n,
            max_extent == fold_extent(desc, reports@, i as int),
            desc.spec_is_buffer() <==> max_extent is Buffer,
            forall|j: int|
                0 <= j < i ==> (#[trigger] reports@[j] matches Some(b) ==> max_extent.spec_le(
                    b.max_extent,
                )),
            desc.spec_is_buffer() ==> mods is None,
            !desc.spec_is_buffer() ==> {
                &&& (mods is None <==> !any_report(reports@, i as int))
                &&& (mods matches Some(v) ==> v@.no_duplicates() && forall|m: Modifier| #[trigger]
                    v@.contains(m) <==> in_all_reports(reports@, i as int, m))
            },
            con.wf(),
            fold_cons(reports@, i as int) == Some(
                (
                    con.offset_align as int,
                    con.stride_align as int,
                    con.size_align as int,
                    con.modifiers@,
                ),
            ),
            unknown_count(reports@, i as int) == if required_idx is Some {
                1int
            } else {
                0int
            },
            match first_unknown(reports@, i as int) {
                Some(j) => required_idx matches Some(k) && k as int == j,
                None => required_idx is None,
            },
            required_idx matches Some(j) ==> j < i,
        decreases n - i,
    {
        let ghost i_int = i as int;
        match &reports[i] {
            None => {},
            Some(class) => {
                max_extent.intersect(class.max_extent);
                proof {
                    assert forall|j: int|
                        0 <= j < i_int + 1 implies (#[trigger] reports@[j] matches Some(b)
                        ==> max_extent.spec_le(b.max_extent)) by {}
                }

                if !desc.is_buffer() {
                    let new_mods = match &mods {
                        Some(v) => crate::backends::intersect_modifiers(v, &class.modifiers),
                        None => crate::backends::dedup_modifiers(&class.modifiers),
                    };
                    proof {
                        assert forall|m: Modifier| #[trigger]
                            new_mods@.contains(m) <==> in_all_reports(
                            reports@,
                            i_int + 1,
                            m,
                        ) by {
                            if new_mods@.contains(m) {
                                assert(class.modifiers@.contains(m));
                            }
                            if in_all_reports(reports@, i_int + 1, m) {
                                assert(in_all_reports(reports@, i_int, m));
                                assert(reports@[i_int] matches Some(b) ==> b.modifiers@.contains(
                                    m,
                                ));
                            }
                        }
                    }
                    mods = Some(new_mods);
                }

                if let Some(backend_con) = &class.constraint {
                    if !con.merge_compat(backend_con) {
                        proof {
                            assert(fold_cons(reports@, i_int + 1) is None);
                            lemma_fold_cons_none(reports@, i_int + 1, reports@.len() as int);
                        }
                        return Error::ctx("mismatched backend constraints");
                    }
                    con.merge(backend_con);
                }

                if class.unknown_constraint {
                    if required_idx.is_none() {
                        required_idx = Some(i);
                    } else {
                        proof {
                            assert(unknown_count(reports@, i_int + 1) == 2);
                            lemma_unknown_count_mono(reports@, i_int + 1, reports@.len() as int);
                        }
                        return Error::unsupported();
                    }
                }
            },
        }
        i = i + 1;
    }

    if max_extent.is_empty() {
        return Error::unsupported();
    }

    let mods_vec: Vec<Modifier> = if desc.is_buffer() {
        Vec::new()
    } else {
        match mods {
            Some(v) => {
                if v.len() == 0 {
                    proof {
                        assert forall|m: Modifier|
                            !in_all_reports(reports@, reports@.len() as int, m) by {
                            assert(!v@.contains(m));
                        }
                    }
                    return Error::unsupported();
                }
                v
            },
            None => { return Error::unsupported() },
        }
    };

    proof {
        if !desc.spec_is_buffer() {
            assert(mods_vec@.contains(mods_vec@[0]));
        }
    }
    let idx = match required_idx {
        Some(j) => j,
        None => 0,
    };
    let class = Class::new(&desc).usage(usage[idx]).max_extent(max_extent).modifiers(
        mods_vec,
    ).constraint(con).backend_index(idx);

    Ok(class)
}

impl<B: Backend> Device<B> {
    /// A device holds at least one backend.
    pub open spec fn wf(&self) -> bool {
        self.backends@.len() >= 1
    }

    /// The backend at an index.
    pub(crate) fn backend(&self, idx: usize) -> (r: &B)
        requires
            idx < self.backends@.len(),
        ensures
            r == &self.backends@[idx as int],
    {
        &self.backends[idx]
    }

    /// Returns the memory plane count of a format and a modifier.
    ///
    /// The format plane count is a property of a format.  The memory plane count is a
    /// property of both a format and a modifier.  Each backend is queried in order;
    /// one that does not support the pair is skipped, and the query fails once every
    /// backend has been tried.
    #[verifier::loop_isolation(false)]
    pub fn memory_plane_count(&self, fmt: Format, modifier: Modifier) -> (r: Result<u32, Error>)
        ensures
            fmt.0 == crate::formats::DRM_FORMAT_INVALID || modifier.0
                == crate::formats::DRM_FORMAT_MOD_INVALID ==> (r matches Err(e) && e is User),
            r matches Ok(n) ==> (crate::formats::format_class_spec(fmt) matches Some(fc) ==> n
                >= fc.plane_count),
    {
        if fmt.is_invalid() || modifier.is_invalid() {
            return Error::user();
        }

        let mut i: usize = 0;
        while i < self.backends.len()
            invariant
                i <= self.backends@.len(),
            decreases self.backends@.len() - i,
        {
            match self.backends[i].memory_plane_count(fmt, modifier) {
                Err(Error::Unsupported) => {},
                res => { return res },
            }
            i = i + 1;
        }

        Error::unsupported()
    }

    /// Creates the opaque BO class for a BO description and a BO usage.
    ///
    /// This validates the BO description and usage and returns the opaque BO class.  If
    /// the possible combinations of BO description/usage are limited, it is suggested
    /// to cache the BO classes to avoid repeated validations.
    pub fn classify(&self, desc: Description, usage: &[Usage]) -> (r: Result<Class, Error>)
        requires
            self.wf(),
        ensures
            !desc.spec_is_valid() ==> (r matches Err(e) && e is User),
            desc.spec_is_valid() && usage@.len() != self.backends@.len() ==> (r matches Err(e)
                && e is User),
            r matches Ok(c) ==> {
                &&& c.wf()
                &&& c.flags == desc.flags
                &&& c.format == desc.format
                &&& c.backend_index < self.backends@.len()
            },
    {
        if !desc.is_valid() {
            return Error::user();
        }

        if self.backends.len() != usage.len() {
            return Error::user();
        }

        if self.backends.len() == 1 {
            self.backends[0].classify(desc, usage[0])
        } else {
            self.multi_classify(desc, usage)
        }
    }

    /// Calls classify on every used backend and merges the results.
    #[verifier::loop_isolation(false)]
    fn multi_classify(&self, desc: Description, usage: &[Usage]) -> (r: Result<Class, Error>)
        requires
            desc.spec_is_valid(),
            usage@.len() == self.backends@.len(),
            self.backends@.len() >= 1,
        ensures
            r matches Ok(c) ==> {
                &&& c.wf()
                &&& c.flags == desc.flags
                &&& c.format == desc.format
                &&& c.backend_index < self.backends@.len()
            },
    {
        let n = self.backends.len();
        let mut reports: Vec<Option<Class>> = Vec::new();
        let mut i: usize = 0;
        while i < n
            invariant
                i <= n,
                n == self.backends@.len(),
                usage@.len() == n as int,
                reports@.len() == i as int,
                forall|j: int|
                    0 <= j < i ==> (#[trigger] reports@[j] matches Some(b) ==> b.wf() && b.format
                        == desc.format),
            decreases n - i,
        {
            match usage[i] {
                Usage::Unused => {
                    reports.push(None);
                },
                u => {
                    match self.backends[i].classify(desc, u) {
                        Ok(c) => {
                            reports.push(Some(c));
                        },
                        Err(e) => { return Err(e) },
                    }
                },
            }
            i = i + 1;
        }

        merge_classes(desc, usage, &reports)
    }

    /// Returns the supported modifiers of a BO class.
    ///
    /// A class whose modifier list holds the invalid modifier has an implicit layout;
    /// no modifier is surfaced for it.
    #[verifier::loop_isolation(false)]
    pub fn modifiers(&self, class: &Class) -> (r: Vec<Modifier>)
        ensures
            (exists|i: int|
                0 <= i < class.modifiers@.len() && #[trigger] class.modifiers@[i].0
                    == crate::formats::DRM_FORMAT_MOD_INVALID) ==> r@.len() == 0,
            !(exists|i: int|
                0 <= i < class.modifiers@.len() && #[trigger] class.modifiers@[i].0
                    == crate::formats::DRM_FORMAT_MOD_INVALID) ==> r@ == class.modifiers@,
    {
        let mut i: usize = 0;
        while i < class.modifiers.len()
            invariant
                i <= class.modifiers@.len(),
                forall|j: int|
                    0 <= j < i ==> #[trigger] class.modifiers@[j].0
                        != crate::formats::DRM_FORMAT_MOD_INVALID,
            decreases class.modifiers@.len() - i,
        {
            if class.modifiers[i].is_invalid() {
                return Vec::new();
            }
            i = i + 1;
        }

        crate::backends::clone_modifiers(&class.modifiers)
    }
}

/// A device builder.
///
/// The sole purpose of a builder is to build a `Device`.
pub struct Builder<B: Backend> {
    /// The backends added so far, in order.
    pub backends: Vec<B>,
}

impl<B: Backend> Builder<B> {
    /// Creates a device builder.
    pub fn new() -> (r: Self)
        ensures
            r.backends@.len() == 0,
    {
        Builder { backends: Vec::new() }
    }

    /// Adds a backend to the device builder.
    pub fn add_backend(self, backend: B) -> (r: Self)
        ensures
            r.backends@ == self.backends@.push(backend),
    {
        let mut r = self;
        r.backends.push(backend);
        r
    }

    /// Builds a `Device`.
    pub fn build(self) -> (r: Result<Arc<Device<B>>, Error>)
        ensures
            self.backends@.len() == 0 <==> (r matches Err(e) && e is User),
            r matches Ok(d) ==> d.wf() && d.backends@ == self.backends@,
    {
        if self.backends.len() == 0 {
            return Error::user();
        }

        let dev = Device { backends: self.backends };

        Ok(Arc::new(dev))
    }
}

} // verus!
