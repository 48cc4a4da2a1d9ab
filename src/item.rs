//! The decoded value tree and its mathematical model.
use vstd::prelude::*;

verus! {

/// The entries of a map value: keys are distinct, each entry stands where
/// its key was first inserted.
pub type ItemMap = Vec<(String, Item)>;

/// A decoded value. Floats are held as their IEEE-754 bit patterns.
#[derive(Debug, PartialEq)]
pub enum Item {
    Dict(ItemMap),
    Blob(Vec<u8>),
    List(Vec<Item>),
    Int16(i16),
    Int64(i64),
    F32(u32),
    F64(u64),
    String(String),
    Bool(bool),
    Void,
}

/// What a decoded value means: a map is a mathematical map from keys to
/// values, with no order.
pub enum Value {
    Dict(Map<Seq<char>, Value>),
    Blob(Seq<u8>),
    List(Seq<Value>),
    Int16(i16),
    Int64(i64),
    F32(u32),
    F64(u64),
    Str(Seq<char>),
    Bool(bool),
    Void,
}

impl View for Item {
    type V = Value;

    open spec fn view(&self) -> Value
        decreases *self,
    {
        match *self {
            Item::Dict(m) => Value::Dict(entries_view(m@)),
            Item::Blob(b) => Value::Blob(b@),
            Item::List(l) => Value::List(items_view(l@)),
            Item::Int16(v) => Value::Int16(v),
            Item::Int64(v) => Value::Int64(v),
            Item::F32(v) => Value::F32(v),
            Item::F64(v) => Value::F64(v),
            Item::String(s) => Value::Str(s@),
            Item::Bool(b) => Value::Bool(b),
            Item::Void => Value::Void,
        }
    }
}

impl Item {
    /// Whether this is a map.
    pub fn is_dict(&self) -> (r: bool)
        ensures
            r == (*self is Dict),
    {
        match self {
            Item::Dict(_) => true,
            _ => false,
        }
    }

    /// The content, if this is a map.
    pub fn as_dict(&self) -> (r: Option<&ItemMap>)
        ensures
            match *self {
                Item::Dict(v) => r == Some(&v),
                _ => r is None,
            },
    {
        match self {
            Item::Dict(v) => Some(v),
            _ => None,
        }
    }

    /// The content, for changing in place, if this is a map.
    pub fn as_dict_mut(&mut self) -> (r: Option<&mut ItemMap>)
        ensures
            *old(self) is Dict <==> r is Some,
            !(*old(self) is Dict) ==> *final(self) == *old(self),
            r is Some ==> *r->Some_0 == (*old(self))->Dict_0,
            r is Some ==> *final(self) == Item::Dict(*final(r->Some_0)),
    {
        match self {
            Item::Dict(v) => Some(v),
            _ => None,
        }
    }

    /// The content if this is a map, else the item itself.
    pub fn into_dict(self) -> (r: Result<ItemMap, Item>)
        ensures
            match self {
                Item::Dict(v) => r == Ok::<ItemMap, Item>(v),
                _ => r == Err::<ItemMap, Item>(self),
            },
    {
        match self {
            Item::Dict(v) => Ok(v),
            other => Err(other),
        }
    }

    /// Whether this is a blob.
    pub fn is_blob(&self) -> (r: bool)
        ensures
            r == (*self is Blob),
    {
        match self {
            Item::Blob(_) => true,
            _ => false,
        }
    }

    /// The content, if this is a blob.
    pub fn as_blob(&self) -> (r: Option<&Vec<u8>>)
        ensures
            match *self {
                Item::Blob(v) => r == Some(&v),
                _ => r is None,
            },
    {
        match self {
            Item::Blob(v) => Some(v),
            _ => None,
        }
    }

    /// The content, for changing in place, if this is a blob.
    pub fn as_blob_mut(&mut self) -> (r: Option<&mut Vec<u8>>)
        ensures
            *old(self) is Blob <==> r is Some,
            !(*old(self) is Blob) ==> *final(self) == *old(self),
            r is Some ==> *r->Some_0 == (*old(self))->Blob_0,
            r is Some ==> *final(self) == Item::Blob(*final(r->Some_0)),
    {
        match self {
            Item::Blob(v) => Some(v),
            _ => None,
        }
    }

    /// The content if this is a blob, else the item itself.
    pub fn into_blob(self) -> (r: Result<Vec<u8>, Item>)
        ensures
            match self {
                Item::Blob(v) => r == Ok::<Vec<u8>, Item>(v),
                _ => r == Err::<Vec<u8>, Item>(self),
            },
    {
        match self {
            Item::Blob(v) => Ok(v),
            other => Err(other),
        }
    }

    /// Whether this is a list.
    pub fn is_list(&self) -> (r: bool)
        ensures
            r == (*self is List),
    {
        match self {
            Item::List(_) => true,
            _ => false,
        }
    }

    /// The content, if this is a list.
    pub fn as_list(&self) -> (r: Option<&Vec<Item>>)
        ensures
            match *self {
                Item::List(v) => r == Some(&v),
                _ => r is None,
            },
    {
        match self {
            Item::List(v) => Some(v),
            _ => None,
        }
    }

    /// The content, for changing in place, if this is a list.
    pub fn as_list_mut(&mut self) -> (r: Option<&mut Vec<Item>>)
        ensures
            *old(self) is List <==> r is Some,
            !(*old(self) is List) ==> *final(self) == *old(self),
            r is Some ==> *r->Some_0 == (*old(self))->List_0,
            r is Some ==> *final(self) == Item::List(*final(r->Some_0)),
    {
        match self {
            Item::List(v) => Some(v),
            _ => None,
        }
    }

    /// The content if this is a list, else the item itself.
    pub fn into_list(self) -> (r: Result<Vec<Item>, Item>)
        ensures
            match self {
                Item::List(v) => r == Ok::<Vec<Item>, Item>(v),
                _ => r == Err::<Vec<Item>, Item>(self),
            },
    {
        match self {
            Item::List(v) => Ok(v),
            other => Err(other),
        }
    }

    /// Whether this is a 16-bit integer.
    pub fn is_int16(&self) -> (r: bool)
        ensures
            r == (*self is Int16),
    {
        match self {
            Item::Int16(_) => true,
            _ => false,
        }
    }

    /// The content, if this is a 16-bit integer.
    pub fn as_int16(&self) -> (r: Option<&i16>)
        ensures
            match *self {
                Item::Int16(v) => r == Some(&v),
                _ => r is None,
            },
    {
        match self {
            Item::Int16(v) => Some(v),
            _ => None,
        }
    }

    /// The content, for changing in place, if this is a 16-bit integer.
    pub fn as_int16_mut(&mut self) -> (r: Option<&mut i16>)
        ensures
            *old(self) is Int16 <==> r is Some,
            !(*old(self) is Int16) ==> *final(self) == *old(self),
            r is Some ==> *r->Some_0 == (*old(self))->Int16_0,
            r is Some ==> *final(self) == Item::Int16(*final(r->Some_0)),
    {
        match self {
            Item::Int16(v) => Some(v),
            _ => None,
        }
    }

    /// The content if this is a 16-bit integer, else the item itself.
    pub fn into_int16(self) -> (r: Result<i16, Item>)
        ensures
            match self {
                Item::Int16(v) => r == Ok::<i16, Item>(v),
                _ => r == Err::<i16, Item>(self),
            },
    {
        match self {
            Item::Int16(v) => Ok(v),
            other => Err(other),
        }
    }

    /// Whether this is a 64-bit integer.
    pub fn is_int64(&self) -> (r: bool)
        ensures
            r == (*self is Int64),
    {
        match self {
            Item::Int64(_) => true,
            _ => false,
        }
    }

    /// The content, if this is a 64-bit integer.
    pub fn as_int64(&self) -> (r: Option<&i64>)
        ensures
            match *self {
                Item::Int64(v) => r == Some(&v),
                _ => r is None,
            },
    {
        match self {
            Item::Int64(v) => Some(v),
            _ => None,
        }
    }

    /// The content, for changing in place, if this is a 64-bit integer.
    pub fn as_int64_mut(&mut self) -> (r: Option<&mut i64>)
        ensures
            *old(self) is Int64 <==> r is Some,
            !(*old(self) is Int64) ==> *final(self) == *old(self),
            r is Some ==> *r->Some_0 == (*old(self))->Int64_0,
            r is Some ==> *final(self) == Item::Int64(*final(r->Some_0)),
    {
        match self {
            Item::Int64(v) => Some(v),
            _ => None,
        }
    }

    /// The content if this is a 64-bit integer, else the item itself.
    pub fn into_int64(self) -> (r: Result<i64, Item>)
        ensures
            match self {
                Item::Int64(v) => r == Ok::<i64, Item>(v),
                _ => r == Err::<i64, Item>(self),
            },
    {
        match self {
            Item::Int64(v) => Ok(v),
            other => Err(other),
        }
    }

    /// Whether this is a 32-bit float (its bit pattern).
    pub fn is_f32(&self) -> (r: bool)
        ensures
            r == (*self is F32),
    {
        match self {
            Item::F32(_) => true,
            _ => false,
        }
    }

    /// The content, if this is a 32-bit float (its bit pattern).
    pub fn as_f32(&self) -> (r: Option<&u32>)
        ensures
            match *self {
                Item::F32(v) => r == Some(&v),
                _ => r is None,
            },
    {
        match self {
            Item::F32(v) => Some(v),
            _ => None,
        }
    }

    /// The content, for changing in place, if this is a 32-bit float (its bit pattern).
    pub fn as_f32_mut(&mut self) -> (r: Option<&mut u32>)
        ensures
            *old(self) is F32 <==> r is Some,
            !(*old(self) is F32) ==> *final(self) == *old(self),
            r is Some ==> *r->Some_0 == (*old(self))->F32_0,
            r is Some ==> *final(self) == Item::F32(*final(r->Some_0)),
    {
        match self {
            Item::F32(v) => Some(v),
            _ => None,
        }
    }

    /// The content if this is a 32-bit float (its bit pattern), else the item itself.
    pub fn into_f32(self) -> (r: Result<u32, Item>)
        ensures
            match self {
                Item::F32(v) => r == Ok::<u32, Item>(v),
                _ => r == Err::<u32, Item>(self),
            },
    {
        match self {
            Item::F32(v) => Ok(v),
            other => Err(other),
        }
    }

    /// Whether this is a 64-bit float (its bit pattern).
    pub fn is_f64(&self) -> (r: bool)
        ensures
            r == (*self is F64),
    {
        match self {
            Item::F64(_) => true,
            _ => false,
        }
    }

    /// The content, if this is a 64-bit float (its bit pattern).
    pub fn as_f64(&self) -> (r: Option<&u64>)
        ensures
            match *self {
                Item::F64(v) => r == Some(&v),
                _ => r is None,
            },
    {
        match self {
            Item::F64(v) => Some(v),
            _ => None,
        }
    }

    /// The content, for changing in place, if this is a 64-bit float (its bit pattern).
    pub fn as_f64_mut(&mut self) -> (r: Option<&mut u64>)
        ensures
            *old(self) is F64 <==> r is Some,
            !(*old(self) is F64) ==> *final(self) == *old(self),
            r is Some ==> *r->Some_0 == (*old(self))->F64_0,
            r is Some ==> *final(self) == Item::F64(*final(r->Some_0)),
    {
        match self {
            Item::F64(v) => Some(v),
            _ => None,
        }
    }

    /// The content if this is a 64-bit float (its bit pattern), else the item itself.
    pub fn into_f64(self) -> (r: Result<u64, Item>)
        ensures
            match self {
                Item::F64(v) => r == Ok::<u64, Item>(v),
                _ => r == Err::<u64, Item>(self),
            },
    {
        match self {
            Item::F64(v) => Ok(v),
            other => Err(other),
        }
    }

    /// Whether this is a string.
    pub fn is_string(&self) -> (r: bool)
        ensures
            r == (*self is String),
    {
        match self {
            Item::String(_) => true,
            _ => false,
        }
    }

    /// The content, if this is a string.
    pub fn as_string(&self) -> (r: Option<&String>)
        ensures
            match *self {
                Item::String(v) => r == Some(&v),
                _ => r is None,
            },
    {
        match self {
            Item::String(v) => Some(v),
            _ => None,
        }
    }

    /// The content, for changing in place, if this is a string.
    pub fn as_string_mut(&mut self) -> (r: Option<&mut String>)
        ensures
            *old(self) is String <==> r is Some,
            !(*old(self) is String) ==> *final(self) == *old(self),
            r is Some ==> *r->Some_0 == (*old(self))->String_0,
            r is Some ==> *final(self) == Item::String(*final(r->Some_0)),
    {
        match self {
            Item::String(v) => Some(v),
            _ => None,
        }
    }

    /// The content if this is a string, else the item itself.
    pub fn into_string(self) -> (r: Result<String, Item>)
        ensures
            match self {
                Item::String(v) => r == Ok::<String, Item>(v),
                _ => r == Err::<String, Item>(self),
            },
    {
        match self {
            Item::String(v) => Ok(v),
            other => Err(other),
        }
    }

    /// Whether this is a boolean.
    pub fn is_bool(&self) -> (r: bool)
        ensures
            r == (*self is Bool),
    {
        match self {
            Item::Bool(_) => true,
            _ => false,
        }
    }

    /// The content, if this is a boolean.
    pub fn as_bool(&self) -> (r: Option<&bool>)
        ensures
            match *self {
                Item::Bool(v) => r == Some(&v),
                _ => r is None,
            },
    {
        match self {
            Item::Bool(v) => Some(v),
            _ => None,
        }
    }

    /// The content, for changing in place, if this is a boolean.
    pub fn as_bool_mut(&mut self) -> (r: Option<&mut bool>)
        ensures
            *old(self) is Bool <==> r is Some,
            !(*old(self) is Bool) ==> *final(self) == *old(self),
            r is Some ==> *r->Some_0 == (*old(self))->Bool_0,
            r is Some ==> *final(self) == Item::Bool(*final(r->Some_0)),
    {
        match self {
            Item::Bool(v) => Some(v),
            _ => None,
        }
    }

    /// The content if this is a boolean, else the item itself.
    pub fn into_bool(self) -> (r: Result<bool, Item>)
        ensures
            match self {
                Item::Bool(v) => r == Ok::<bool, Item>(v),
                _ => r == Err::<bool, Item>(self),
            },
    {
        match self {
            Item::Bool(v) => Ok(v),
            other => Err(other),
        }
    }

    /// Whether this is the unit value.
    pub fn is_void(&self) -> (r: bool)
        ensures
            r == (*self is Void),
    {
        match self {
            Item::Void => true,
            _ => false,
        }
    }
}

/// The values of a sequence of items, in order.
pub open spec fn items_view(s: Seq<Item>) -> Seq<Value>
    decreases s,
{
    if s.len() == 0 {
        Seq::empty()
    } else {
        items_view(s.subrange(0, s.len() - 1)).push(s[s.len() - 1]@)
    }
}

/// The map that a sequence of entries stands for; a later entry wins over
/// an earlier one with the same key.
pub open spec fn entries_view(s: Seq<(String, Item)>) -> Map<Seq<char>, Value>
    decreases s,
{
    if s.len() == 0 {
        Map::empty()
    } else {
        entries_view(s.subrange(0, s.len() - 1)).insert(s[s.len() - 1].0@, s[s.len() - 1].1@)
    }
}

/// No two entries share a key.
pub open spec fn keys_unique(s: Seq<(String, Item)>) -> bool {
    forall|i: int, j: int| 0 <= i < s.len() && 0 <= j < s.len() && i != j ==> s[i].0@ != s[j].0@
}

pub proof fn lemma_items_view_push(s: Seq<Item>, x: Item)
    ensures
        items_view(s.push(x)) == items_view(s).push(x@),
{
    assert(s.push(x).subrange(0, s.len() as int) =~= s);
}

pub proof fn lemma_entries_view_push(s: Seq<(String, Item)>, e: (String, Item))
    ensures
        entries_view(s.push(e)) == entries_view(s).insert(e.0@, e.1@),
{
    assert(s.push(e).subrange(0, s.len() as int) =~= s);
}

/// Replacing the entry of a key already present updates that key alone.
pub proof fn lemma_entries_view_update(s: Seq<(String, Item)>, i: int, e: (String, Item))
    requires
        keys_unique(s),
        0 <= i < s.len(),
        s[i].0@ == e.0@,
    ensures
        entries_view(s.update(i, e)) == entries_view(s).insert(e.0@, e.1@),
    decreases s.len(),
{
    let n = s.len() - 1;
    let t = s.update(i, e);
    let front = s.subrange(0, n);
    assert(entries_view(s) == entries_view(front).insert(s[n].0@, s[n].1@));
    assert(t.len() == s.len());
    assert(entries_view(t) == entries_view(t.subrange(0, n)).insert(t[n].0@, t[n].1@));
    if i == n {
        assert(t.subrange(0, n) =~= front);
        assert(entries_view(t) =~= entries_view(s).insert(e.0@, e.1@));
    } else {
        assert(t.subrange(0, n) =~= front.update(i, e));
        assert(keys_unique(front));
        lemma_entries_view_update(front, i, e);
        assert(s[n].0@ != e.0@);
        assert(entries_view(t) =~= entries_view(s).insert(e.0@, e.1@));
    }
}

/// Inserts `value` under `key`: the entry of an equal key is replaced in
/// place, otherwise the pair is appended.
pub fn map_insert(m: &mut ItemMap, key: String, value: Item)
    requires
        keys_unique(old(m)@),
    ensures
        keys_unique(final(m)@),
        entries_view(final(m)@) == entries_view(old(m)@).insert(key@, value@),
{
    let mut i: usize = 0;
    while i < m.len()
        invariant
            m@ == old(m)@,
            keys_unique(m@),
            i <= m@.len(),
            forall|j: int| 0 <= j < i ==> m@[j].0@ != key@,
        decreases m@.len() - i,
    {
        if m[i].0 == key {
            proof {
                lemma_entries_view_update(m@, i as int, (key, value));
            }
            m.set(i, (key, value));
            assert(keys_unique(m@));
            return;
        }
        i = i + 1;
    }
    proof {
        lemma_entries_view_push(m@, (key, value));
    }
    m.push((key, value));
}

} // verus!
