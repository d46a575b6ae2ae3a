//! Filtering a window-registry snapshot down to the visible application
//! windows.
//!
//! A record survives exactly when its stacking layer is `0`, its opacity is
//! not `0`, its title and owner name are non-empty, and its owning process id
//! is present. Survivors keep the order in which the registry returned them.

use vstd::prelude::*;

use crate::props::PropKey;
use crate::props::PropModel;
use crate::props::PropRecord;
use crate::props::number_of;
use crate::props::pid_of;
use crate::props::string_of;

verus! {

/// One visible window: its owning process, the owning application's display
/// name, and the window's title.
#[derive(Clone, Debug, PartialEq, Eq)]
pub struct Window {
    pub pid: i32,
    pub app_name: String,
    pub window_name: String,
}

/// The mathematical value of a [`Window`].
pub struct WindowModel {
    pub pid: i32,
    pub app_name: Seq<char>,
    pub window_name: Seq<char>,
}

impl View for Window {
    type V = WindowModel;

    open spec fn view(&self) -> WindowModel {
        WindowModel { pid: self.pid, app_name: self.app_name@, window_name: self.window_name@ }
    }
}

/// The record's stacking layer: the stored integer itself, `0` only when the
/// entry is absent or holds no number.
pub open spec fn layer_val(r: Seq<PropModel>) -> i64 {
    match number_of(r, PropKey::Layer) {
        Some(n) => n,
        None => 0,
    }
}

/// The record's opacity: the stored integer itself, `0` only when the entry
/// is absent or holds no number.
pub open spec fn alpha_val(r: Seq<PropModel>) -> i64 {
    match number_of(r, PropKey::Alpha) {
        Some(n) => n,
        None => 0,
    }
}

/// The admission rule: a record describes a visible application window
/// exactly when its layer is `0`, its opacity is not `0`, its title and
/// owner name are non-empty, and its owning process id is present.
pub open spec fn admitted(r: Seq<PropModel>) -> bool {
    &&& layer_val(r) == 0
    &&& alpha_val(r) != 0
    &&& string_of(r, PropKey::Name).len() > 0
    &&& string_of(r, PropKey::OwnerName).len() > 0
    &&& pid_of(r, PropKey::OwnerPid) is Some
}

/// The window an admitted record describes: the owner's display name becomes
/// the application name and the record's name entry the window title.
pub open spec fn window_of(r: Seq<PropModel>) -> WindowModel {
    WindowModel {
        pid: pid_of(r, PropKey::OwnerPid)->Some_0,
        app_name: string_of(r, PropKey::OwnerName),
        window_name: string_of(r, PropKey::Name),
    }
}

/// The windows of the admitted records, in registry order.
pub open spec fn surviving(rs: Seq<Seq<PropModel>>) -> Seq<WindowModel>
    decreases rs.len(),
{
    if rs.len() == 0 {
        Seq::empty()
    } else if admitted(rs.last()) {
        surviving(rs.drop_last()).push(window_of(rs.last()))
    } else {
        surviving(rs.drop_last())
    }
}

/// The mathematical values of a sequence of records.
pub open spec fn records_model(rs: Seq<PropRecord>) -> Seq<Seq<PropModel>> {
    Seq::new(rs.len(), |i: int| rs[i]@)
}

/// The mathematical values of a sequence of windows.
pub open spec fn windows_model(ws: Seq<Window>) -> Seq<WindowModel> {
    Seq::new(ws.len(), |i: int| ws[i]@)
}

/// The records a snapshot carries: none at all when the registry query
/// produced no usable handle.
pub open spec fn snapshot_model(s: Option<Vec<PropRecord>>) -> Seq<Seq<PropModel>> {
    match s {
        None => Seq::empty(),
        Some(rs) => records_model(rs@),
    }
}

/// Walk a snapshot of the window registry and keep, in registry order, one
/// [`Window`] per record that passes the admission rule. A failed registry
/// query (`None`) yields the empty list.
pub fn get_active_windows(snapshot: Option<Vec<PropRecord>>) -> (r: Vec<Window>)
    ensures
        windows_model(r@) == surviving(snapshot_model(snapshot)),
        snapshot is None ==> r@.len() == 0,
{
    let mut out: Vec<Window> = Vec::new();
    let recs = match snapshot {
        None => {
            proof {
                assert(windows_model(out@) =~= surviving(Seq::empty()));
            }
            return out;
        },
        Some(v) => v,
    };
    let ghost models: Seq<Seq<PropModel>> = records_model(recs@);
    let mut i: usize = 0;
    while i < recs.len()
        invariant
            i <= recs.len(),
            models == records_model(recs@),
            windows_model(out@) == surviving(models.take(i as int)),
        decreases recs.len() - i,
    {
        let rec = &recs[i];
        let layer = match rec.get_number(PropKey::Layer) {
            Some(n) => n,
            None => 0,
        };
        let alpha = match rec.get_number(PropKey::Alpha) {
            Some(n) => n,
            None => 0,
        };
        let ghost prev = out@;
        if layer == 0 && alpha != 0 {
            let name = rec.get_string(PropKey::Name);
            let owner = rec.get_string(PropKey::OwnerName);
            let pid_found = rec.get_pid(PropKey::OwnerPid);
            if let Some(pid) = pid_found {
                if !owner.as_str().is_empty() && !name.as_str().is_empty() {
                    out.push(Window { pid, app_name: owner, window_name: name });
                }
            }
        }
        proof {
            assert(models[i as int] == rec@);
            assert(models.take(i as int + 1).drop_last() =~= models.take(i as int));
            assert(models.take(i as int + 1).last() == models[i as int]);
            if admitted(models[i as int]) {
                assert(windows_model(out@) =~= surviving(models.take(i as int)).push(
                    window_of(models[i as int]),
                ));
            } else {
                assert(out@ == prev);
                assert(windows_model(out@) =~= surviving(models.take(i as int)));
            }
        }
        i += 1;
    }
    proof {
        assert(models.take(recs@.len() as int) =~= models);
    }
    out
}

/// Soundness of the filter, one direction of the admission law: every
/// admitted record's window appears in the result.
pub proof fn lemma_admitted_in_output(rs: Seq<Seq<PropModel>>, j: int)
    requires
        0 <= j < rs.len(),
        admitted(rs[j]),
    ensures
        surviving(rs).contains(window_of(rs[j])),
    decreases rs.len(),
{
    let w = window_of(rs[j]);
    if j == rs.len() - 1 {
        assert(surviving(rs).last() == w);
        assert(surviving(rs).contains(w));
    } else {
        lemma_admitted_in_output(rs.drop_last(), j);
        let k = choose|k: int|
            0 <= k < surviving(rs.drop_last()).len() && surviving(rs.drop_last())[k] == w;
        assert(surviving(rs)[k] == w);
        assert(surviving(rs).contains(w));
    }
}

/// Soundness of the filter, the other direction of the admission law: every
/// window of the result is the window of some admitted record. No record
/// that fails the admission rule contributes anything.
pub proof fn lemma_output_from_admitted(rs: Seq<Seq<PropModel>>, k: int)
    requires
        0 <= k < surviving(rs).len(),
    ensures
        exists|j: int| 0 <= j < rs.len() && admitted(rs[j]) && surviving(rs)[k] == window_of(rs[j]),
    decreases rs.len(),
{
    if rs.len() > 0 && admitted(rs.last()) && k == surviving(rs).len() - 1 {
        let j = rs.len() - 1;
        assert(admitted(rs[j]) && surviving(rs)[k] == window_of(rs[j]));
    } else {
        lemma_output_from_admitted(rs.drop_last(), k);
        let j = choose|j: int|
            0 <= j < rs.drop_last().len() && admitted(rs.drop_last()[j]) && surviving(
                rs.drop_last(),
            )[k] == window_of(rs.drop_last()[j]);
        assert(rs.drop_last()[j] == rs[j]);
        assert(admitted(rs[j]) && surviving(rs)[k] == window_of(rs[j]));
    }
}

/// Repeating the query is idempotent: as long as the registry's records have
/// not changed, a second walk yields exactly the same windows.
pub proof fn lemma_repeat_same_result(first: Seq<Seq<PropModel>>, second: Seq<Seq<PropModel>>)
    requires
        first == second,
    ensures
        surviving(first) == surviving(second),
        surviving(first).to_multiset() == surviving(second).to_multiset(),
{
}

/// Prefixes of the input only ever grow the output: the filter drops records
/// but never reorders or revisits them.
pub proof fn lemma_prefix_len_monotone(rs: Seq<Seq<PropModel>>, i: int, j: int)
    requires
        0 <= i <= j <= rs.len(),
    ensures
        surviving(rs.take(i)).len() <= surviving(rs.take(j)).len(),
    decreases j - i,
{
    if i < j {
        lemma_prefix_len_monotone(rs, i, j - 1);
        assert(rs.take(j).drop_last() =~= rs.take(j - 1));
    }
}

/// Order preservation: an admitted record's window stands in the result at
/// the index given by the number of admitted records before it, so the
/// result lists survivors in exactly the registry's order.
pub proof fn lemma_order_preserved(rs: Seq<Seq<PropModel>>, j: int)
    requires
        0 <= j < rs.len(),
        admitted(rs[j]),
    ensures
        surviving(rs.take(j)).len() < surviving(rs).len(),
        surviving(rs)[surviving(rs.take(j)).len() as int] == window_of(rs[j]),
    decreases rs.len(),
{
    if j == rs.len() - 1 {
        assert(rs.take(j) =~= rs.drop_last());
    } else {
        lemma_order_preserved(rs.drop_last(), j);
        assert(rs.drop_last().take(j) =~= rs.take(j));
    }
}

/// A record whose opacity entry is missing or cannot be read as a number
/// counts as fully transparent and is excluded from the result.
pub proof fn lemma_unusable_alpha_excluded(r: Seq<PropModel>)
    requires
        number_of(r, PropKey::Alpha) is None,
    ensures
        alpha_val(r) == 0,
        !admitted(r),
{
}

} // verus!
