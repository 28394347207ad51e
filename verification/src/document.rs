//! The document model: the values a filter, a pipeline stage or a stored
//! document is made of. A document is an ordered list of named values.

use vstd::prelude::*;
use vstd::string::*;

use crate::text::same_text;
verus! {

/// One value of a document.
#[derive(Debug)]
pub enum Value {
    Null,
    Bool(bool),
    /// A whole number.
    Int(i64),
    /// A floating-point number, held as the text that writes it.
    Double(String),
    Text(String),
    /// A store-assigned identifier, held as its hexadecimal text.
    ObjectId(String),
    Array(Vec<Value>),
    Document(Document),
    /// A value of a kind that the gateway carries but does not look into,
    /// held as the text that its store writes for it.
    Other(String),
}

/// An ordered list of named values. A name may occur more than once; a
/// lookup finds the first occurrence.
#[derive(Debug)]
pub struct Document {
    pub fields: Vec<(String, Value)>,
}

/// The mathematical form of a [`Value`].
pub enum ValueView {
    Null,
    Bool(bool),
    Int(int),
    Double(Seq<char>),
    Text(Seq<char>),
    ObjectId(Seq<char>),
    Array(Seq<ValueView>),
    Document(Seq<(Seq<char>, ValueView)>),
    Other(Seq<char>),
}

/// The mathematical form of a [`Document`]: its fields in order.
pub type DocumentView = Seq<(Seq<char>, ValueView)>;

/// The view of a value, by recursion on its structure.
pub open spec fn value_view(v: Value) -> ValueView
    decreases v,
{
    match v {
        Value::Null => ValueView::Null,
        Value::Bool(b) => ValueView::Bool(b),
        Value::Int(i) => ValueView::Int(i as int),
        Value::Double(t) => ValueView::Double(t@),
        Value::Text(t) => ValueView::Text(t@),
        Value::ObjectId(t) => ValueView::ObjectId(t@),
        Value::Other(t) => ValueView::Other(t@),
        Value::Array(items) => ValueView::Array(
            Seq::new(
                items@.len(),
                |i: int|
                    if 0 <= i < items@.len() {
                        value_view(items@[i])
                    } else {
                        ValueView::Null
                    },
            ),
        ),
        Value::Document(d) => ValueView::Document(
            Seq::new(
                d.fields@.len(),
                |i: int|
                    if 0 <= i < d.fields@.len() {
                        (d.fields@[i].0@, value_view(d.fields@[i].1))
                    } else {
                        (Seq::empty(), ValueView::Null)
                    },
            ),
        ),
    }
}

/// The views of a sequence of values, in order.
pub open spec fn values_view(items: Seq<Value>) -> Seq<ValueView> {
    Seq::new(items.len(), |i: int| value_view(items[i]))
}

/// The views of a sequence of fields, in order.
pub open spec fn fields_view(fields: Seq<(String, Value)>) -> DocumentView {
    Seq::new(fields.len(), |i: int| (fields[i].0@, value_view(fields[i].1)))
}

impl View for Value {
    type V = ValueView;

    open spec fn view(&self) -> ValueView {
        value_view(*self)
    }
}

impl View for Document {
    type V = DocumentView;

    open spec fn view(&self) -> DocumentView {
        fields_view(self.fields@)
    }
}

/// The view of an array is the views of its items; the view of a document
/// value is the view of the document it holds.
pub proof fn lemma_value_view_unfold(v: Value)
    ensures
        v matches Value::Array(items) ==> v@ == ValueView::Array(values_view(items@)),
        v matches Value::Document(d) ==> v@ == ValueView::Document(d@),
{
    match v {
        Value::Array(items) => {
            assert(v@->Array_0 =~= values_view(items@));
        },
        Value::Document(d) => {
            assert(v@->Document_0 =~= d@);
        },
        _ => {},
    }
}

/// The index of the first field named `key`, if there is one.
pub open spec fn first_index_of(d: DocumentView, key: Seq<char>) -> Option<int>
    decreases d.len(),
{
    if d.len() == 0 {
        None
    } else {
        match first_index_of(d.drop_last(), key) {
            Some(i) => Some(i),
            None => if d.last().0 == key {
                Some(d.len() - 1)
            } else {
                None
            },
        }
    }
}

/// The value of the first field named `key`, if there is one.
pub open spec fn lookup(d: DocumentView, key: Seq<char>) -> Option<ValueView> {
    match first_index_of(d, key) {
        Some(i) => Some(d[i].1),
        None => None,
    }
}

/// `first_index_of` finds an index inside the document whose field bears
/// the name, and no earlier field does.
pub proof fn lemma_first_index_of(d: DocumentView, key: Seq<char>)
    ensures
        match first_index_of(d, key) {
            Some(i) => 0 <= i < d.len() && d[i].0 == key && forall|j: int| 0 <= j < i ==> d[j].0 != key,
            None => forall|j: int| 0 <= j < d.len() ==> d[j].0 != key,
        },
    decreases d.len(),
{
    if d.len() > 0 {
        lemma_first_index_of(d.drop_last(), key);
        assert forall|j: int| 0 <= j < d.len() - 1 implies d.drop_last()[j] == d[j] by {}
    }
}

impl Value {
    /// A deep copy of the value.
    pub fn duplicate(&self) -> (r: Value)
        ensures
            r@ == self@,
        decreases self,
    {
        match self {
            Value::Null => Value::Null,
            Value::Bool(b) => Value::Bool(*b),
            Value::Int(i) => Value::Int(*i),
            Value::Double(t) => Value::Double(t.clone()),
            Value::Text(t) => Value::Text(t.clone()),
            Value::ObjectId(t) => Value::ObjectId(t.clone()),
            Value::Other(t) => Value::Other(t.clone()),
            Value::Array(items) => {
                let mut out: Vec<Value> = Vec::new();
                let mut i: usize = 0;
                while i < items.len()
                    invariant
                        i <= items.len(),
                        out@.len() == i,
                        self == Value::Array(*items),
                        forall|j: int| 0 <= j < i ==> (#[trigger] out@[j])@ == items@[j]@,
                    decreases items.len() - i,
                {
                    proof {
                        assert(decreases_to!(*self => self->Array_0));
                        assert(decreases_to!(*items => items[i as int]));
                    }
                    out.push(items[i].duplicate());
                    i = i + 1;
                }
                let r = Value::Array(out);
                proof {
                    lemma_value_view_unfold(r);
                    lemma_value_view_unfold(*self);
                    assert(values_view(out@) =~= values_view(items@));
                }
                r
            },
            Value::Document(d) => {
                let mut out: Vec<(String, Value)> = Vec::new();
                let mut i: usize = 0;
                while i < d.fields.len()
                    invariant
                        i <= d.fields.len(),
                        out@.len() == i,
                        self == Value::Document(*d),
                        forall|j: int|
                            0 <= j < i ==> (#[trigger] out@[j]).0@ == d.fields@[j].0@ && out@[j].1@
                                == d.fields@[j].1@,
                    decreases d.fields.len() - i,
                {
                    proof {
                        assert(decreases_to!(*self => self->Document_0));
                        assert(decreases_to!(d.fields => d.fields[i as int]));
                    }
                    out.push((d.fields[i].0.clone(), d.fields[i].1.duplicate()));
                    i = i + 1;
                }
                let r = Value::Document(Document { fields: out });
                proof {
                    lemma_value_view_unfold(r);
                    lemma_value_view_unfold(*self);
                    assert(fields_view(out@) =~= fields_view(d.fields@));
                }
                r
            },
        }
    }
}

impl Document {
    /// A document without fields.
    pub fn new() -> (r: Document)
        ensures
            r@ == Seq::<(Seq<char>, ValueView)>::empty(),
    {
        let r = Document { fields: Vec::new() };
        proof {
            assert(r@ =~= Seq::<(Seq<char>, ValueView)>::empty());
        }
        r
    }

    /// Appends a field and hands the document back, for chained building.
    pub fn with(self, name: &str, value: Value) -> (r: Document)
        ensures
            r@ == self@.push((name@, value@)),
    {
        let mut fields = self.fields;
        fields.push((String::from_str(name), value));
        let r = Document { fields };
        proof {
            assert(r@ =~= self@.push((name@, value@)));
        }
        r
    }

    /// The number of fields.
    pub fn len(&self) -> (n: usize)
        ensures
            n == self@.len(),
    {
        self.fields.len()
    }

    /// The value of the first field named `key`.
    pub fn get(&self, key: &str) -> (r: Option<&Value>)
        ensures
            match r {
                Some(v) => lookup(self@, key@) == Some(v@),
                None => lookup(self@, key@).is_none(),
            },
    {
        let mut i: usize = 0;
        while i < self.fields.len()
            invariant
                i <= self.fields.len(),
                first_index_of(self@.take(i as int), key@).is_none(),
            decreases self.fields.len() - i,
        {
            proof {
                assert(self@.take(i + 1).drop_last() == self@.take(i as int));
            }
            if same_text(self.fields[i].0.as_str(), key) {
                proof {
                    lemma_found_extends(self@, key@, i as int);
                }
                return Some(&self.fields[i].1);
            }
            i = i + 1;
        }
        proof {
            assert(self@.take(self@.len() as int) == self@);
        }
        None
    }

    /// A deep copy of the document.
    pub fn duplicate(&self) -> (r: Document)
        ensures
            r@ == self@,
    {
        let mut out: Vec<(String, Value)> = Vec::new();
        let mut i: usize = 0;
        while i < self.fields.len()
            invariant
                i <= self.fields.len(),
                out@.len() == i,
                forall|j: int|
                    0 <= j < i ==> (#[trigger] out@[j]).0@ == self.fields@[j].0@ && out@[j].1@
                        == self.fields@[j].1@,
            decreases self.fields.len() - i,
        {
            out.push((self.fields[i].0.clone(), self.fields[i].1.duplicate()));
            i = i + 1;
        }
        let r = Document { fields: out };
        proof {
            assert(r@ =~= self@);
        }
        r
    }
}

/// Once a prefix of a document holds a field named `key`, the first such
/// field of the whole document is the first of the prefix.
proof fn lemma_found_extends(d: DocumentView, key: Seq<char>, i: int)
    requires
        0 <= i < d.len(),
        first_index_of(d.take(i), key).is_none(),
        d[i].0 == key,
    ensures
        first_index_of(d, key) == Some(i),
{
    lemma_first_index_of(d, key);
    lemma_first_index_of(d.take(i), key);
    assert forall|j: int| 0 <= j < i implies d[j].0 != key by {
        assert(d.take(i)[j] == d[j]);
    }
}

} // verus!
