//! The typed record accessor: reads and writes the attributes of a composite
//! record value by name or by 1-based position, with checked types.
//!
//! One rule holds throughout: a read or write whose type differs from the
//! attribute's declared type fails with `IncompatibleTypes`, whether or not
//! the attribute holds a value, so an absent value is never confused with a
//! type mismatch.

use vstd::prelude::*;
use crate::text::str_eq;

verus! {

/// The SQL type of an attribute.
#[derive(Debug, Clone, Copy, PartialEq, Eq, Structural)]
pub enum SqlType {
    Text,
    Int2,
    Int4,
    Int8,
    Bool,
}

/// A value stored in an attribute.
#[derive(Debug, Clone, PartialEq, Eq)]
pub enum Datum {
    Text(String),
    Int2(i16),
    Int4(i32),
    Int8(i64),
    Bool(bool),
}

/// One attribute of a record type: its name and declared type.
#[derive(Debug, Clone, PartialEq, Eq)]
pub struct Attribute {
    pub name: String,
    pub ty: SqlType,
}

/// A registered composite record type.
#[derive(Debug, Clone, PartialEq, Eq)]
pub struct TupleDesc {
    pub name: String,
    pub attributes: Vec<Attribute>,
}

/// Why an attribute could not be read or written.
#[derive(Debug, Clone, PartialEq, Eq)]
pub enum TryFromDatumError {
    /// The value's type differs from the attribute's declared type.
    IncompatibleTypes,
    /// No attribute stands at this 1-based position.
    NoSuchAttributeNumber(usize),
    /// No attribute has this name.
    NoSuchAttributeName(String),
}

/// Why a record value could not be created.
#[derive(Debug, Clone, PartialEq, Eq)]
pub enum RecordError {
    /// No composite type of this name is registered.
    NoSuchType(String),
}

/// A live record value: a type descriptor and one slot per attribute.
/// A host-allocated record may be written; a borrowed one is a read-only
/// view of a record owned elsewhere.
#[derive(Debug, Clone, PartialEq, Eq)]
pub struct RecordValue {
    desc: TupleDesc,
    values: Vec<Option<Datum>>,
    host_allocated: bool,
}

pub enum DatumView {
    Text(Seq<char>),
    Int2(i16),
    Int4(i32),
    Int8(i64),
    Bool(bool),
}

pub struct AttrView {
    pub name: Seq<char>,
    pub ty: SqlType,
}

pub struct RecordView {
    pub composite_name: Seq<char>,
    pub attrs: Seq<AttrView>,
    pub values: Seq<Option<DatumView>>,
    pub host_allocated: bool,
}

impl View for Datum {
    type V = DatumView;

    open spec fn view(&self) -> DatumView {
        match self {
            Datum::Text(s) => DatumView::Text(s@),
            Datum::Int2(v) => DatumView::Int2(*v),
            Datum::Int4(v) => DatumView::Int4(*v),
            Datum::Int8(v) => DatumView::Int8(*v),
            Datum::Bool(v) => DatumView::Bool(*v),
        }
    }
}

pub open spec fn datum_type(d: DatumView) -> SqlType {
    match d {
        DatumView::Text(_) => SqlType::Text,
        DatumView::Int2(_) => SqlType::Int2,
        DatumView::Int4(_) => SqlType::Int4,
        DatumView::Int8(_) => SqlType::Int8,
        DatumView::Bool(_) => SqlType::Bool,
    }
}

pub open spec fn attrs_view(a: Seq<Attribute>) -> Seq<AttrView> {
    a.map_values(|x: Attribute| AttrView { name: x.name@, ty: x.ty })
}

pub open spec fn slot_view(v: Option<Datum>) -> Option<DatumView> {
    match v {
        Some(d) => Some(d@),
        None => None,
    }
}

impl View for RecordValue {
    type V = RecordView;

    closed spec fn view(&self) -> RecordView {
        RecordView {
            composite_name: self.desc.name@,
            attrs: attrs_view(self.desc.attributes@),
            values: self.values@.map_values(|v: Option<Datum>| slot_view(v)),
            host_allocated: self.host_allocated,
        }
    }
}

/// One slot per attribute, each holding nothing or a value of the
/// attribute's declared type.
pub open spec fn record_wf(r: RecordView) -> bool {
    &&& r.values.len() == r.attrs.len()
    &&& forall|i: int|
        0 <= i < r.values.len() ==> (#[trigger] r.values[i] matches Some(d) ==> datum_type(d) == r.attrs[i].ty)
}

/// Position `i` (0-based) holds the first attribute called `name`.
pub open spec fn attr_at(attrs: Seq<AttrView>, name: Seq<char>, i: int) -> bool {
    &&& 0 <= i < attrs.len()
    &&& attrs[i].name == name
    &&& forall|j: int| 0 <= j < i ==> (#[trigger] attrs[j]).name != name
}

pub open spec fn has_attr(attrs: Seq<AttrView>, name: Seq<char>) -> bool {
    exists|i: int| 0 <= i < attrs.len() && (#[trigger] attrs[i]).name == name
}

/// Reading slot `i` as `expected`: its value, or a type error.
pub open spec fn read_slot(r: RecordView, i: int, expected: SqlType) -> Result<Option<DatumView>, ()> {
    if r.attrs[i].ty != expected {
        Err(())
    } else {
        Ok(r.values[i])
    }
}

pub open spec fn get_result_view(res: Result<Option<Datum>, TryFromDatumError>) -> Result<Option<DatumView>, ()> {
    match res {
        Ok(v) => Ok(slot_view(v)),
        Err(_) => Err(()),
    }
}

/// What `get_by_name` returns.
pub open spec fn get_by_name_outcome(
    r: RecordView,
    name: Seq<char>,
    expected: SqlType,
    res: Result<Option<Datum>, TryFromDatumError>,
) -> bool {
    if !has_attr(r.attrs, name) {
        res matches Err(TryFromDatumError::NoSuchAttributeName(n)) && n@ == name
    } else {
        exists|i: int|
            attr_at(r.attrs, name, i) && (#[trigger] read_slot(r, i, expected) matches Err(_) ==> res
                == Err::<Option<Datum>, TryFromDatumError>(TryFromDatumError::IncompatibleTypes)) && (read_slot(
                r,
                i,
                expected,
            ) matches Ok(v) ==> res is Ok && get_result_view(res) == Ok::<Option<DatumView>, ()>(v))
    }
}

/// What `get_by_index` returns.
pub open spec fn get_by_index_outcome(
    r: RecordView,
    index: usize,
    expected: SqlType,
    res: Result<Option<Datum>, TryFromDatumError>,
) -> bool {
    if index < 1 || index > r.attrs.len() {
        res == Err::<Option<Datum>, TryFromDatumError>(TryFromDatumError::NoSuchAttributeNumber(index))
    } else if r.attrs[index - 1].ty != expected {
        res == Err::<Option<Datum>, TryFromDatumError>(TryFromDatumError::IncompatibleTypes)
    } else {
        res is Ok && get_result_view(res) == Ok::<Option<DatumView>, ()>(r.values[index - 1])
    }
}

/// Slot `i` now holds `value`; everything else is as before.
pub open spec fn written(old_r: RecordView, new_r: RecordView, i: int, value: DatumView) -> bool {
    &&& new_r.composite_name == old_r.composite_name
    &&& new_r.attrs == old_r.attrs
    &&& new_r.host_allocated == old_r.host_allocated
    &&& new_r.values == old_r.values.update(i, Some(value))
}

/// What `set_by_name` does.
pub open spec fn set_by_name_outcome(
    old_r: RecordView,
    name: Seq<char>,
    value: DatumView,
    new_r: RecordView,
    res: Result<(), TryFromDatumError>,
) -> bool {
    if !has_attr(old_r.attrs, name) {
        new_r == old_r && (res matches Err(TryFromDatumError::NoSuchAttributeName(n)) && n@ == name)
    } else {
        exists|i: int|
            #[trigger] attr_at(old_r.attrs, name, i) && if old_r.attrs[i].ty != datum_type(value) {
                new_r == old_r && res == Err::<(), TryFromDatumError>(TryFromDatumError::IncompatibleTypes)
            } else {
                res is Ok && written(old_r, new_r, i, value)
            }
    }
}

/// What `set_by_index` does.
pub open spec fn set_by_index_outcome(
    old_r: RecordView,
    index: usize,
    value: DatumView,
    new_r: RecordView,
    res: Result<(), TryFromDatumError>,
) -> bool {
    if index < 1 || index > old_r.attrs.len() {
        new_r == old_r && res == Err::<(), TryFromDatumError>(TryFromDatumError::NoSuchAttributeNumber(index))
    } else if old_r.attrs[index - 1].ty != datum_type(value) {
        new_r == old_r && res == Err::<(), TryFromDatumError>(TryFromDatumError::IncompatibleTypes)
    } else {
        res is Ok && written(old_r, new_r, index - 1, value)
    }
}

fn sql_type_of(d: &Datum) -> (t: SqlType)
    ensures
        t == datum_type(d@),
{
    match d {
        Datum::Text(_) => SqlType::Text,
        Datum::Int2(_) => SqlType::Int2,
        Datum::Int4(_) => SqlType::Int4,
        Datum::Int8(_) => SqlType::Int8,
        Datum::Bool(_) => SqlType::Bool,
    }
}

fn copy_datum(d: &Datum) -> (c: Datum)
    ensures
        c@ == d@,
{
    match d {
        Datum::Text(s) => Datum::Text(s.clone()),
        Datum::Int2(v) => Datum::Int2(*v),
        Datum::Int4(v) => Datum::Int4(*v),
        Datum::Int8(v) => Datum::Int8(*v),
        Datum::Bool(v) => Datum::Bool(*v),
    }
}

fn copy_attributes(a: &Vec<Attribute>) -> (c: Vec<Attribute>)
    ensures
        attrs_view(c@) == attrs_view(a@),
{
    let mut c: Vec<Attribute> = Vec::new();
    let mut i: usize = 0;
    while i < a.len()
        invariant
            i <= a@.len(),
            c@.len() == i,
            forall|j: int| 0 <= j < i ==> (#[trigger] c@[j]).name@ == a@[j].name@ && c@[j].ty == a@[j].ty,
        decreases a.len() - i,
    {
        c.push(Attribute { name: a[i].name.clone(), ty: a[i].ty });
        i = i + 1;
    }
    assert(attrs_view(c@) =~= attrs_view(a@));
    c
}

/// The position of the first attribute called `name`.
fn find_attribute(attrs: &Vec<Attribute>, name: &str) -> (r: Option<usize>)
    ensures
        match r {
            Some(i) => attr_at(attrs_view(attrs@), name@, i as int),
            None => !has_attr(attrs_view(attrs@), name@),
        },
{
    let ghost av = attrs_view(attrs@);
    let mut i: usize = 0;
    while i < attrs.len()
        invariant
            i <= attrs@.len(),
            av == attrs_view(attrs@),
            forall|j: int| 0 <= j < i ==> (#[trigger] av[j]).name != name@,
        decreases attrs.len() - i,
    {
        if str_eq(attrs[i].name.as_str(), name) {
            return Some(i);
        }
        i = i + 1;
    }
    None
}

/// The first registered composite type called `name`.
pub open spec fn registered(types: Seq<TupleDesc>, name: Seq<char>, i: int) -> bool {
    &&& 0 <= i < types.len()
    &&& types[i].name@ == name
    &&& forall|j: int| 0 <= j < i ==> (#[trigger] types[j]).name@ != name
}

impl RecordValue {
    pub closed spec fn wf(&self) -> bool {
        record_wf(self@)
    }

    /// A new host-allocated record of the registered composite type called
    /// `name`, with every attribute unset.
    pub fn new_composite_type(name: &str, types: &Vec<TupleDesc>) -> (r: Result<RecordValue, RecordError>)
        ensures
            match r {
                Ok(rec) => rec.wf() && rec@.host_allocated && exists|i: int|
                    registered(types@, name@, i) && rec@.composite_name == name@ && rec@.attrs == attrs_view(
                        #[trigger] types@[i].attributes@,
                    ) && forall|k: int| 0 <= k < rec@.values.len() ==> #[trigger] rec@.values[k] is None,
                Err(RecordError::NoSuchType(n)) => n@ == name@ && forall|i: int|
                    0 <= i < types@.len() ==> (#[trigger] types@[i]).name@ != name@,
            },
    {
        let mut i: usize = 0;
        while i < types.len()
            invariant
                i <= types@.len(),
                forall|j: int| 0 <= j < i ==> (#[trigger] types@[j]).name@ != name@,
            decreases types.len() - i,
        {
            if str_eq(types[i].name.as_str(), name) {
                let attributes = copy_attributes(&types[i].attributes);
                let mut values: Vec<Option<Datum>> = Vec::new();
                let mut k: usize = 0;
                while k < attributes.len()
                    invariant
                        k <= attributes@.len(),
                        values@.len() == k,
                        forall|j: int| 0 <= j < k ==> (#[trigger] values@[j]) is None,
                    decreases attributes.len() - k,
                {
                    values.push(None);
                    k = k + 1;
                }
                let rec = RecordValue {
                    desc: TupleDesc { name: types[i].name.clone(), attributes },
                    values,
                    host_allocated: true,
                };
                assert(registered(types@, name@, i as int));
                assert(rec.wf());
                return Ok(rec);
            }
            i = i + 1;
        }
        Err(RecordError::NoSuchType(String::from_str(name)))
    }

    /// A read-only view of a record owned elsewhere, with the given slots.
    /// Returns `None` unless there is one slot per attribute, each unset or
    /// holding a value of the attribute's type.
    pub fn borrowed(desc: TupleDesc, values: Vec<Option<Datum>>) -> (r: Option<RecordValue>)
        ensures
            match r {
                Some(rec) => rec.wf() && !rec@.host_allocated && rec@.composite_name == desc.name@ && rec@.attrs
                    == attrs_view(desc.attributes@) && rec@.values == values@.map_values(
                    |v: Option<Datum>| slot_view(v),
                ),
                None => !record_wf(RecordView {
                    composite_name: desc.name@,
                    attrs: attrs_view(desc.attributes@),
                    values: values@.map_values(|v: Option<Datum>| slot_view(v)),
                    host_allocated: false,
                }),
            },
    {
        let ghost rv = RecordView {
            composite_name: desc.name@,
            attrs: attrs_view(desc.attributes@),
            values: values@.map_values(|v: Option<Datum>| slot_view(v)),
            host_allocated: false,
        };
        if values.len() != desc.attributes.len() {
            return None;
        }
        let mut i: usize = 0;
        while i < values.len()
            invariant
                i <= values@.len(),
                values@.len() == desc.attributes@.len(),
                rv.values == values@.map_values(|v: Option<Datum>| slot_view(v)),
                rv.attrs == attrs_view(desc.attributes@),
                forall|j: int| 0 <= j < i ==> (#[trigger] rv.values[j] matches Some(d) ==> datum_type(d) == rv.attrs[j].ty),
            decreases values.len() - i,
        {
            if let Some(d) = &values[i] {
                if sql_type_of(d) != desc.attributes[i].ty {
                    assert(rv.values[i as int] == Some(d@));
                    return None;
                }
            }
            i = i + 1;
        }
        let rec = RecordValue { desc, values, host_allocated: false };
        assert(rec@ == rv);
        Some(rec)
    }

    /// Whether this record may be written.
    pub fn is_host_allocated(&self) -> (r: bool)
        ensures
            r == self@.host_allocated,
    {
        self.host_allocated
    }

    /// A host-allocated copy of this record, which may then be written.
    pub fn to_host_allocated(&self) -> (r: RecordValue)
        requires
            self.wf(),
        ensures
            r.wf(),
            r@.host_allocated,
            r@.composite_name == self@.composite_name,
            r@.attrs == self@.attrs,
            r@.values == self@.values,
    {
        let mut values: Vec<Option<Datum>> = Vec::new();
        let mut i: usize = 0;
        while i < self.values.len()
            invariant
                i <= self.values@.len(),
                values@.len() == i,
                forall|j: int| 0 <= j < i ==> slot_view(#[trigger] values@[j]) == slot_view(self.values@[j]),
            decreases self.values.len() - i,
        {
            let v = match &self.values[i] {
                Some(d) => Some(copy_datum(d)),
                None => None,
            };
            values.push(v);
            i = i + 1;
        }
        assert(values@.map_values(|v: Option<Datum>| slot_view(v)) =~= self.values@.map_values(
            |v: Option<Datum>| slot_view(v),
        ));
        let attributes = copy_attributes(&self.desc.attributes);
        RecordValue {
            desc: TupleDesc { name: self.desc.name.clone(), attributes },
            values,
            host_allocated: true,
        }
    }

    fn read(&self, i: usize, expected: SqlType) -> (res: Result<Option<Datum>, TryFromDatumError>)
        requires
            self.wf(),
            i < self@.attrs.len(),
        ensures
            read_slot(self@, i as int, expected) matches Err(_) ==> res == Err::<Option<Datum>, TryFromDatumError>(
                TryFromDatumError::IncompatibleTypes,
            ),
            read_slot(self@, i as int, expected) matches Ok(v) ==> res is Ok && get_result_view(res) == Ok::<
                Option<DatumView>,
                (),
            >(v),
    {
        assert(self@.attrs[i as int].ty == self.desc.attributes@[i as int].ty);
        if self.desc.attributes[i].ty != expected {
            return Err(TryFromDatumError::IncompatibleTypes);
        }
        assert(self@.values[i as int] == slot_view(self.values@[i as int]));
        match &self.values[i] {
            Some(d) => Ok(Some(copy_datum(d))),
            None => Ok(None),
        }
    }

    /// Reads the attribute called `name` as a value of type `expected`:
    /// `Ok(None)` when it is unset.
    pub fn get_by_name(&self, name: &str, expected: SqlType) -> (res: Result<Option<Datum>, TryFromDatumError>)
        requires
            self.wf(),
        ensures
            get_by_name_outcome(self@, name@, expected, res),
    {
        match find_attribute(&self.desc.attributes, name) {
            Some(i) => {
                let res = self.read(i, expected);
                assert(read_slot(self@, i as int, expected) == read_slot(self@, i as int, expected));
                res
            },
            None => Err(TryFromDatumError::NoSuchAttributeName(String::from_str(name))),
        }
    }

    /// Reads the attribute at the 1-based position `index` as a value of
    /// type `expected`: `Ok(None)` when it is unset.
    pub fn get_by_index(&self, index: usize, expected: SqlType) -> (res: Result<Option<Datum>, TryFromDatumError>)
        requires
            self.wf(),
        ensures
            get_by_index_outcome(self@, index, expected, res),
    {
        if index < 1 || index > self.desc.attributes.len() {
            return Err(TryFromDatumError::NoSuchAttributeNumber(index));
        }
        self.read(index - 1, expected)
    }

    fn write(&mut self, i: usize, value: Datum) -> (res: Result<(), TryFromDatumError>)
        requires
            old(self).wf(),
            i < old(self)@.attrs.len(),
        ensures
            final(self).wf(),
            old(self)@.attrs[i as int].ty != datum_type(value@) ==> final(self)@ == old(self)@ && res == Err::<
                (),
                TryFromDatumError,
            >(TryFromDatumError::IncompatibleTypes),
            old(self)@.attrs[i as int].ty == datum_type(value@) ==> res is Ok && written(
                old(self)@,
                final(self)@,
                i as int,
                value@,
            ),
    {
        assert(self@.attrs[i as int].ty == self.desc.attributes@[i as int].ty);
        if self.desc.attributes[i].ty != sql_type_of(&value) {
            return Err(TryFromDatumError::IncompatibleTypes);
        }
        let ghost before = self@;
        let ghost v = value@;
        self.values.set(i, Some(value));
        assert(self@.values =~= before.values.update(i as int, Some(v)));
        Ok(())
    }

    /// Writes `value` to the attribute called `name`. The value must have
    /// the attribute's declared type; nothing is converted.
    pub fn set_by_name(&mut self, name: &str, value: Datum) -> (res: Result<(), TryFromDatumError>)
        requires
            old(self).wf(),
            old(self)@.host_allocated,
        ensures
            final(self).wf(),
            set_by_name_outcome(old(self)@, name@, value@, final(self)@, res),
    {
        match find_attribute(&self.desc.attributes, name) {
            Some(i) => {
                let res = self.write(i, value);
                assert(attr_at(old(self)@.attrs, name@, i as int));
                res
            },
            None => Err(TryFromDatumError::NoSuchAttributeName(String::from_str(name))),
        }
    }

    /// Writes `value` to the attribute at the 1-based position `index`.
    pub fn set_by_index(&mut self, index: usize, value: Datum) -> (res: Result<(), TryFromDatumError>)
        requires
            old(self).wf(),
            old(self)@.host_allocated,
        ensures
            final(self).wf(),
            set_by_index_outcome(old(self)@, index, value@, final(self)@, res),
    {
        if index < 1 || index > self.desc.attributes.len() {
            return Err(TryFromDatumError::NoSuchAttributeNumber(index));
        }
        self.write(index - 1, value)
    }

    /// The number of attributes.
    pub fn len(&self) -> (n: usize)
        ensures
            n == self@.attrs.len(),
    {
        self.desc.attributes.len()
    }
}

/// The declared type of the attribute called `name` is `t`.
pub open spec fn attr_has_type(attrs: Seq<AttrView>, name: Seq<char>, t: SqlType) -> bool {
    forall|i: int| #[trigger] attr_at(attrs, name, i) ==> attrs[i].ty == t
}

/// Writing a value of the attribute's declared type and reading the same
/// attribute back as that type yields exactly the value written.
pub proof fn lemma_set_then_get_round_trips(
    r0: RecordView,
    r1: RecordView,
    name: Seq<char>,
    value: DatumView,
    set_res: Result<(), TryFromDatumError>,
    get_res: Result<Option<Datum>, TryFromDatumError>,
)
    requires
        record_wf(r0),
        has_attr(r0.attrs, name),
        attr_has_type(r0.attrs, name, datum_type(value)),
        set_by_name_outcome(r0, name, value, r1, set_res),
        get_by_name_outcome(r1, name, datum_type(value), get_res),
    ensures
        set_res is Ok,
        get_res is Ok,
        get_result_view(get_res) == Ok::<Option<DatumView>, ()>(Some(value)),
{
    let i = choose|i: int| #[trigger] attr_at(r0.attrs, name, i) && if r0.attrs[i].ty != datum_type(value) {
        r1 == r0 && set_res == Err::<(), TryFromDatumError>(TryFromDatumError::IncompatibleTypes)
    } else {
        set_res is Ok && written(r0, r1, i, value)
    };
    assert(r1.attrs == r0.attrs);
    assert(has_attr(r1.attrs, name));
    let j = choose|j: int|
        attr_at(r1.attrs, name, j) && (#[trigger] read_slot(r1, j, datum_type(value)) matches Err(_) ==> get_res
            == Err::<Option<Datum>, TryFromDatumError>(TryFromDatumError::IncompatibleTypes)) && (read_slot(
            r1,
            j,
            datum_type(value),
        ) matches Ok(v) ==> get_res is Ok && get_result_view(get_res) == Ok::<Option<DatumView>, ()>(v));
    if i < j {
        assert(r1.attrs[i].name != name);
    } else if j < i {
        assert(r0.attrs[j].name != name);
    }
    assert(i == j);
    assert(r1.values[i] == Some(value));
}

/// Reading or writing an attribute name that the record does not have
/// fails with `NoSuchAttributeName` and leaves the record as it was.
pub proof fn lemma_missing_name_is_reported(
    r0: RecordView,
    r1: RecordView,
    name: Seq<char>,
    expected: SqlType,
    value: DatumView,
    get_res: Result<Option<Datum>, TryFromDatumError>,
    set_res: Result<(), TryFromDatumError>,
)
    requires
        !has_attr(r0.attrs, name),
        get_by_name_outcome(r0, name, expected, get_res),
        set_by_name_outcome(r0, name, value, r1, set_res),
    ensures
        get_res matches Err(TryFromDatumError::NoSuchAttributeName(n)) && n@ == name,
        set_res matches Err(TryFromDatumError::NoSuchAttributeName(n)) && n@ == name,
        r1 == r0,
{
}

/// Reading or writing at a position outside `1..=len` fails with
/// `NoSuchAttributeNumber` and leaves the record as it was.
pub proof fn lemma_out_of_range_index_is_reported(
    r0: RecordView,
    r1: RecordView,
    index: usize,
    expected: SqlType,
    value: DatumView,
    get_res: Result<Option<Datum>, TryFromDatumError>,
    set_res: Result<(), TryFromDatumError>,
)
    requires
        index < 1 || index > r0.attrs.len(),
        get_by_index_outcome(r0, index, expected, get_res),
        set_by_index_outcome(r0, index, value, r1, set_res),
    ensures
        get_res == Err::<Option<Datum>, TryFromDatumError>(TryFromDatumError::NoSuchAttributeNumber(index)),
        set_res == Err::<(), TryFromDatumError>(TryFromDatumError::NoSuchAttributeNumber(index)),
        r1 == r0,
{
}

/// Writing a value whose type differs from the attribute's declared type
/// fails with `IncompatibleTypes` and leaves the attribute's prior value,
/// and the whole record, unchanged.
pub proof fn lemma_incompatible_set_changes_nothing(
    r0: RecordView,
    r1: RecordView,
    name: Seq<char>,
    value: DatumView,
    res: Result<(), TryFromDatumError>,
)
    requires
        has_attr(r0.attrs, name),
        !attr_has_type(r0.attrs, name, datum_type(value)),
        set_by_name_outcome(r0, name, value, r1, res),
    ensures
        res == Err::<(), TryFromDatumError>(TryFromDatumError::IncompatibleTypes),
        r1 == r0,
{
    let i = choose|i: int| #[trigger] attr_at(r0.attrs, name, i) && if r0.attrs[i].ty != datum_type(value) {
        r1 == r0 && res == Err::<(), TryFromDatumError>(TryFromDatumError::IncompatibleTypes)
    } else {
        res is Ok && written(r0, r1, i, value)
    };
    let k = choose|k: int| #[trigger] attr_at(r0.attrs, name, k) && r0.attrs[k].ty != datum_type(value);
    if i < k {
        assert(r0.attrs[i].name != name);
    } else if k < i {
        assert(r0.attrs[k].name != name);
    }
}

} // verus!
