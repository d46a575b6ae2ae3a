//! The property records that the platform's window registry returns.
//!
//! Each window is described by a mapping from well-known keys to typed
//! values. A key may be absent, and a present value may not be convertible
//! to the type a caller asks for; both cases count as "absent" and callers
//! fall back to their own defaults.

use vstd::prelude::*;

verus! {

/// The well-known keys of a window property record.
#[derive(Clone, Copy, Debug, PartialEq, Eq, Structural)]
pub enum PropKey {
    /// The compositor's stacking layer; `0` is an ordinary application window.
    Layer,
    /// The window's opacity; `0` is fully transparent.
    Alpha,
    /// The window's title.
    Name,
    /// The display name of the owning application.
    OwnerName,
    /// The process id of the owning application.
    OwnerPid,
}

/// A typed property value: the registry stores numbers and strings.
#[derive(Clone, Debug)]
pub enum PropValue {
    Number(i64),
    Text(String),
}

/// The mathematical value of a [`PropValue`].
pub enum PropValueModel {
    Number(i64),
    Text(Seq<char>),
}

impl View for PropValue {
    type V = PropValueModel;

    open spec fn view(&self) -> PropValueModel {
        match self {
            PropValue::Number(n) => PropValueModel::Number(*n),
            PropValue::Text(s) => PropValueModel::Text(s@),
        }
    }
}

/// One keyed entry of a property record.
#[derive(Clone, Debug)]
pub struct Prop {
    pub key: PropKey,
    pub value: PropValue,
}

/// The mathematical value of a [`Prop`].
pub struct PropModel {
    pub key: PropKey,
    pub value: PropValueModel,
}

impl View for Prop {
    type V = PropModel;

    open spec fn view(&self) -> PropModel {
        PropModel { key: self.key, value: self.value@ }
    }
}

/// One window's property record: the entries in registry order.
#[derive(Clone, Debug)]
pub struct PropRecord {
    pub props: Vec<Prop>,
}

impl View for PropRecord {
    type V = Seq<PropModel>;

    open spec fn view(&self) -> Seq<PropModel> {
        Seq::new(self.props@.len(), |i: int| self.props@[i]@)
    }
}

/// The value of the first entry with the given key, starting the search at
/// position `i`.
pub open spec fn lookup_from(ps: Seq<PropModel>, key: PropKey, i: int) -> Option<PropValueModel>
    decreases ps.len() - i,
{
    if i < 0 || i >= ps.len() {
        None
    } else if ps[i].key == key {
        Some(ps[i].value)
    } else {
        lookup_from(ps, key, i + 1)
    }
}

/// The value of the first entry with the given key, if any.
pub open spec fn lookup(ps: Seq<PropModel>, key: PropKey) -> Option<PropValueModel> {
    lookup_from(ps, key, 0)
}

/// String extraction: the text under the key, or empty when the key is
/// absent or its value is not a string.
pub open spec fn string_of(ps: Seq<PropModel>, key: PropKey) -> Seq<char> {
    match lookup(ps, key) {
        Some(PropValueModel::Text(s)) => s,
        _ => Seq::empty(),
    }
}

/// Numeric extraction: the integer stored under the key, absent when the key
/// is missing or its value is a string.
pub open spec fn number_of(ps: Seq<PropModel>, key: PropKey) -> Option<i64> {
    match lookup(ps, key) {
        Some(PropValueModel::Number(n)) => Some(n),
        _ => None,
    }
}

/// Process-id extraction: the number under the key when it converts to
/// `i32`, absent when the key is missing, holds a string, or is out of range.
pub open spec fn pid_of(ps: Seq<PropModel>, key: PropKey) -> Option<i32> {
    match lookup(ps, key) {
        Some(PropValueModel::Number(n)) => if i32::MIN as i64 <= n && n <= i32::MAX as i64 {
            Some(n as i32)
        } else {
            None
        },
        _ => None,
    }
}

impl PropRecord {
    /// Find the value stored under a key: the first matching entry wins.
    pub fn find_value(&self, key: PropKey) -> (r: Option<&PropValue>)
        ensures
            match r {
                Some(v) => lookup(self@, key) == Some(v@),
                None => lookup(self@, key) is None,
            },
    {
        let mut i: usize = 0;
        while i < self.props.len()
            invariant
                i <= self.props.len(),
                lookup(self@, key) == lookup_from(self@, key, i as int),
            decreases self.props.len() - i,
        {
            if self.props[i].key == key {
                return Some(&self.props[i].value);
            }
            i += 1;
        }
        None
    }

    /// Extract a string field; absent or non-string values give the empty
    /// string.
    pub fn get_string(&self, key: PropKey) -> (r: String)
        ensures
            r@ == string_of(self@, key),
    {
        match self.find_value(key) {
            Some(PropValue::Text(s)) => s.clone(),
            _ => String::new(),
        }
    }

    /// Extract a numeric field; absent or non-numeric values give `None`.
    pub fn get_number(&self, key: PropKey) -> (r: Option<i64>)
        ensures
            r == number_of(self@, key),
    {
        match self.find_value(key) {
            Some(PropValue::Number(n)) => Some(*n),
            _ => None,
        }
    }

    /// Extract a process id; absent, non-numeric or out-of-range values give
    /// `None`.
    pub fn get_pid(&self, key: PropKey) -> (r: Option<i32>)
        ensures
            r == pid_of(self@, key),
    {
        match self.find_value(key) {
            Some(PropValue::Number(n)) => {
                let v = *n;
                if i32::MIN as i64 <= v && v <= i32::MAX as i64 {
                    Some(v as i32)
                } else {
                    None
                }
            },
            _ => None,
        }
    }
}

} // verus!
