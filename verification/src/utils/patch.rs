//! The tri-state patch value, dynamically typed column values, and the field
//! map that an update writes.
use vstd::prelude::*;
use vstd::string::*;
use crate::utils::text::same_text;

verus! {

/// One field of an update request: not sent, sent as null, or sent with a value.
#[derive(Debug, Clone, PartialEq)]
pub enum Patch<T> {
    Undefined,
    Null,
    Value(T),
}

impl<T> Patch<T> {
    /// The patch that a wire value stands for: absence, explicit null, explicit value.
    pub open spec fn of_wire(wire: Option<Option<T>>) -> Patch<T> {
        match wire {
            None => Patch::Undefined,
            Some(None) => Patch::Null,
            Some(Some(v)) => Patch::Value(v),
        }
    }

    /// The wire value that stands for a patch.
    pub open spec fn to_wire(self) -> Option<Option<T>> {
        match self {
            Patch::Undefined => None,
            Patch::Null => Some(None),
            Patch::Value(v) => Some(Some(v)),
        }
    }

    /// Whether the request mentioned the field at all.
    pub open spec fn is_supplied(self) -> bool {
        !(self is Undefined)
    }

    /// Decodes an optional wire value, where the outer `None` is a field that was
    /// not sent and the inner `None` a field sent as null.
    pub fn decode(wire: Option<Option<T>>) -> (r: Patch<T>)
        ensures
            r == Self::of_wire(wire),
    {
        match wire {
            None => Patch::Undefined,
            Some(None) => Patch::Null,
            Some(Some(v)) => Patch::Value(v),
        }
    }

    /// Encodes the patch as an optional wire value; `Undefined` becomes absence.
    pub fn encode(self) -> (r: Option<Option<T>>)
        ensures
            r == self.to_wire(),
    {
        match self {
            Patch::Undefined => None,
            Patch::Null => Some(None),
            Patch::Value(v) => Some(Some(v)),
        }
    }

    /// Whether the request mentioned the field at all.
    pub fn supplied(&self) -> (r: bool)
        ensures
            r == self.is_supplied(),
    {
        match self {
            Patch::Undefined => false,
            _ => true,
        }
    }
}

/// Encoding a patch and decoding the result gives the patch back, in each of
/// its three states; decoding a wire value and encoding the result gives the
/// wire value back. An absent field therefore never decodes as `Null`.
pub proof fn lemma_wire_round_trip<T>(patch: Patch<T>, wire: Option<Option<T>>)
    ensures
        Patch::of_wire(patch.to_wire()) == patch,
        Patch::of_wire(wire).to_wire() == wire,
        Patch::<T>::of_wire(None) == Patch::<T>::Undefined,
        patch.to_wire() is None <==> patch is Undefined,
{
}

impl<T> Default for Patch<T> {
    fn default() -> (r: Self)
        ensures
            r == Patch::<T>::Undefined,
    {
        Patch::Undefined
    }
}

impl<T> From<Option<T>> for Patch<T> {
    fn from(opt: Option<T>) -> (r: Patch<T>) {
        match opt {
            Some(v) => Patch::Value(v),
            None => Patch::Null,
        }
    }
}

impl<T> vstd::std_specs::convert::FromSpecImpl<Option<T>> for Patch<T> {
    open spec fn obeys_from_spec() -> bool {
        true
    }

    open spec fn from_spec(opt: Option<T>) -> Patch<T> {
        match opt {
            Some(v) => Patch::Value(v),
            None => Patch::Null,
        }
    }
}

/// A column value as contracts see it.
pub enum FieldSpec {
    Null,
    Bool(bool),
    Int(int),
    Text(Seq<char>),
}

/// A dynamically typed column value.
#[derive(Debug, Clone, PartialEq)]
pub enum FieldValue {
    Null,
    Bool(bool),
    Int(i64),
    Text(String),
}

impl View for FieldValue {
    type V = FieldSpec;

    open spec fn view(&self) -> FieldSpec {
        match self {
            FieldValue::Null => FieldSpec::Null,
            FieldValue::Bool(b) => FieldSpec::Bool(*b),
            FieldValue::Int(n) => FieldSpec::Int(*n as int),
            FieldValue::Text(s) => FieldSpec::Text(s@),
        }
    }
}

impl FieldValue {
    /// A copy with the same content.
    pub fn duplicate(&self) -> (r: FieldValue)
        ensures
            r@ == self@,
    {
        match self {
            FieldValue::Null => FieldValue::Null,
            FieldValue::Bool(b) => FieldValue::Bool(*b),
            FieldValue::Int(n) => FieldValue::Int(*n),
            FieldValue::Text(s) => FieldValue::Text(String::from_str(s.as_str())),
        }
    }
}

/// One named field of an update form. The name is fixed when the program is
/// written: a request supplies values, never names.
#[derive(Debug, Clone, PartialEq)]
pub struct FormField {
    pub name: &'static str,
    pub value: Patch<FieldValue>,
}

/// What a form field contributes to an update: nothing, a null, or its value.
pub open spec fn supplied_value(p: Patch<FieldValue>) -> Option<FieldSpec> {
    match p {
        Patch::Undefined => None,
        Patch::Null => Some(FieldSpec::Null),
        Patch::Value(v) => Some(v@),
    }
}

impl View for FormField {
    type V = (Seq<char>, Option<FieldSpec>);

    /// The field's name and what it contributes.
    open spec fn view(&self) -> (Seq<char>, Option<FieldSpec>) {
        (self.name@, supplied_value(self.value))
    }
}

/// The views of the fields of a form.
pub open spec fn form_view(form: Seq<FormField>) -> Seq<(Seq<char>, Option<FieldSpec>)> {
    Seq::new(form.len(), |i: int| form[i]@)
}

/// Column order after a write to `key`: a new column goes last.
pub open spec fn order_with(order: Seq<Seq<char>>, key: Seq<char>) -> Seq<Seq<char>> {
    if order.contains(key) {
        order
    } else {
        order.push(key)
    }
}

/// Column order after `key` is taken out.
pub open spec fn order_without(order: Seq<Seq<char>>, key: Seq<char>) -> Seq<Seq<char>> {
    if order.contains(key) {
        order.remove(order.index_of(key))
    } else {
        order
    }
}

/// The columns that a form asks to write, with their values.
pub open spec fn extracted(form: Seq<(Seq<char>, Option<FieldSpec>)>) -> Map<Seq<char>, FieldSpec>
    decreases form.len(),
{
    if form.len() == 0 {
        Map::empty()
    } else {
        let rest = extracted(form.drop_last());
        match form.last().1 {
            None => rest,
            Some(v) => rest.insert(form.last().0, v),
        }
    }
}

/// The order in which the extracted columns are written.
pub open spec fn extracted_order(form: Seq<(Seq<char>, Option<FieldSpec>)>) -> Seq<Seq<char>>
    decreases form.len(),
{
    if form.len() == 0 {
        Seq::empty()
    } else {
        let rest = extracted_order(form.drop_last());
        match form.last().1 {
            None => rest,
            Some(v) => order_with(rest, form.last().0),
        }
    }
}

/// The columns to write and their values, each column once, in a fixed order.
/// Column names are fixed when the program is written, so that no text of a
/// request can become part of a statement.
pub struct FieldMap {
    entries: Vec<(&'static str, FieldValue)>,
}

impl FieldMap {
    /// The column names in the order in which they are written.
    pub closed spec fn order(&self) -> Seq<Seq<char>> {
        Seq::new(self.entries@.len(), |i: int| self.entries@[i].0@)
    }

    /// The value of the column at position `i` of the order.
    pub closed spec fn value_at(&self, i: int) -> FieldSpec {
        self.entries@[i].1@
    }

    /// The mapping from column name to value.
    pub closed spec fn view(&self) -> Map<Seq<char>, FieldSpec> {
        Map::new(
            |k: Seq<char>| self.order().contains(k),
            |k: Seq<char>| self.value_at(self.order().index_of(k)),
        )
    }

    /// No column occurs twice. Every constructor establishes this and every
    /// method keeps it.
    pub closed spec fn wf(&self) -> bool {
        self.order().no_duplicates()
    }

    /// The order lists each column of the map exactly once, and the value at a
    /// position is the map's value for the column there.
    pub proof fn lemma_order(&self)
        requires
            self.wf(),
        ensures
            self.order().no_duplicates(),
            forall|k: Seq<char>| self.order().contains(k) <==> self@.contains_key(k),
            forall|i: int|
                0 <= i < self.order().len() ==> #[trigger] self.value_at(i) == self@[self.order()[i]],
            self@.dom().finite(),
            self@.dom().len() == self.order().len(),
    {
        let order = self.order();
        assert forall|i: int| 0 <= i < order.len() implies #[trigger] self.value_at(i)
            == self@[order[i]] by {
            assert(order.contains(order[i]));
            let j = order.index_of(order[i]);
            assert(order[j] == order[i]);
        }
        assert(self@.dom() =~= order.to_set());
        order.unique_seq_to_set();
    }

    /// A map without columns.
    pub fn new() -> (r: FieldMap)
        ensures
            r.wf(),
            r@ == Map::<Seq<char>, FieldSpec>::empty(),
            r.order() == Seq::<Seq<char>>::empty(),
    {
        let r = FieldMap { entries: Vec::new() };
        assert(r.order() =~= Seq::<Seq<char>>::empty());
        assert(r@ =~= Map::<Seq<char>, FieldSpec>::empty());
        r
    }

    /// Number of columns.
    pub fn len(&self) -> (r: usize)
        requires
            self.wf(),
        ensures
            r == self.order().len(),
            r == self@.dom().len(),
    {
        proof {
            self.lemma_order();
        }
        self.entries.len()
    }

    /// Whether there is nothing to write.
    pub fn is_empty(&self) -> (r: bool)
        requires
            self.wf(),
        ensures
            r == (self.order().len() == 0),
            r == (self@ == Map::<Seq<char>, FieldSpec>::empty()),
    {
        proof {
            self.lemma_order();
            if self.order().len() == 0 {
                assert(self@ =~= Map::<Seq<char>, FieldSpec>::empty());
            } else {
                assert(self.order().contains(self.order()[0]));
                assert(self@.contains_key(self.order()[0]));
            }
        }
        self.entries.len() == 0
    }

    /// The name of the column at position `i` of the order.
    pub fn name(&self, i: usize) -> (r: &str)
        requires
            i < self.order().len(),
        ensures
            r@ == self.order()[i as int],
    {
        self.entries[i].0
    }

    /// The value of the column at position `i` of the order.
    pub fn value(&self, i: usize) -> (r: &FieldValue)
        requires
            self.wf(),
            i < self.order().len(),
        ensures
            r@ == self.value_at(i as int),
            r@ == self@[self.order()[i as int]],
    {
        proof {
            self.lemma_order();
        }
        &self.entries[i].1
    }

    fn position(&self, key: &str) -> (r: usize)
        ensures
            r <= self.order().len(),
            r < self.order().len() ==> self.order()[r as int] == key@,
            r == self.order().len() ==> !self.order().contains(key@),
    {
        let mut i: usize = 0;
        while i < self.entries.len()
            invariant
                i <= self.entries@.len(),
                forall|j: int| 0 <= j < i ==> self.order()[j] != key@,
            decreases self.entries@.len() - i,
        {
            if same_text(self.entries[i].0, key) {
                return i;
            }
            i += 1;
        }
        i
    }

    /// The value to write to a column, if the map has the column.
    pub fn get(&self, key: &str) -> (r: Option<&FieldValue>)
        requires
            self.wf(),
        ensures
            r is Some <==> self@.contains_key(key@),
            r is Some ==> r->0@ == self@[key@],
    {
        let i = self.position(key);
        proof {
            self.lemma_order();
        }
        if i < self.entries.len() {
            Some(&self.entries[i].1)
        } else {
            None
        }
    }

    /// Whether the map has the column.
    pub fn contains_key(&self, key: &str) -> (r: bool)
        ensures
            r == self@.contains_key(key@),
    {
        let i = self.position(key);
        i < self.entries.len()
    }

    /// Sets a column: a column that the map has keeps its place and takes the new
    /// value, a new one goes last.
    pub fn insert(&mut self, key: &'static str, value: FieldValue)
        requires
            old(self).wf(),
        ensures
            final(self).wf(),
            final(self)@ == old(self)@.insert(key@, value@),
            final(self).order() == order_with(old(self).order(), key@),
    {
        let i = self.position(key);
        let ghost before = *self;
        if i < self.entries.len() {
            self.entries.set(i, (key, value));
            proof {
                assert(self.order() =~= before.order());
                assert(before.order().contains(key@));
            }
        } else {
            self.entries.push((key, value));
            proof {
                assert(self.order() =~= before.order().push(key@));
                assert forall|a: int, b: int|
                    0 <= a < self.order().len() && 0 <= b < self.order().len() && a
                        != b implies self.order()[a] != self.order()[b] by {
                    if a < before.order().len() {
                        assert(before.order().contains(self.order()[a]));
                    }
                    if b < before.order().len() {
                        assert(before.order().contains(self.order()[b]));
                    }
                }
            }
        }
        proof {
            let after = *self;
            assert forall|k: Seq<char>| after.order().contains(k) <==> (before.order().contains(k)
                || k == key@) by {
                if before.order().contains(k) {
                    let j = before.order().index_of(k);
                    assert(after.order()[j] == k);
                }
                if k == key@ {
                    assert(after.order()[i as int] == k);
                }
            }
            assert forall|k: Seq<char>| after.order().contains(k) implies #[trigger] after@[k]
                == before@.insert(key@, value@)[k] by {
                let j = after.order().index_of(k);
                assert(after.order()[j] == k);
                if k == key@ {
                    assert(after.order()[i as int] == k);
                    assert(j == i);
                } else {
                    assert(j != i);
                    assert(before.order()[j] == k);
                    let j0 = before.order().index_of(k);
                    assert(before.order()[j0] == k);
                    assert(j0 == j);
                }
            }
            assert(after@ =~= before@.insert(key@, value@));
        }
    }

    /// Takes a column out; a map without the column stays as it is.
    pub fn remove(&mut self, key: &str)
        requires
            old(self).wf(),
        ensures
            final(self).wf(),
            final(self)@ == old(self)@.remove(key@),
            final(self).order() == order_without(old(self).order(), key@),
    {
        let i = self.position(key);
        let ghost before = *self;
        if i < self.entries.len() {
            self.entries.remove(i);
            proof {
                let after = *self;
                assert(before.order().contains(key@));
                let at = before.order().index_of(key@);
                assert(before.order()[at] == key@);
                assert(at == i);
                assert(after.order() =~= before.order().remove(i as int));
                assert forall|k: Seq<char>| after.order().contains(k) <==> (before.order().contains(
                    k,
                ) && k != key@) by {
                    if after.order().contains(k) {
                        let j = after.order().index_of(k);
                        assert(after.order()[j] == k);
                        if j < i {
                            assert(before.order()[j] == k);
                        } else {
                            assert(before.order()[j + 1] == k);
                        }
                    }
                    if before.order().contains(k) && k != key@ {
                        let j = before.order().index_of(k);
                        assert(before.order()[j] == k);
                        if j < i {
                            assert(after.order()[j] == k);
                        } else {
                            assert(after.order()[j - 1] == k);
                        }
                    }
                }
                assert forall|k: Seq<char>| after.order().contains(k) implies #[trigger] after@[k]
                    == before@[k] by {
                    let j = after.order().index_of(k);
                    assert(after.order()[j] == k);
                    let j0 = before.order().index_of(k);
                    assert(before.order()[j0] == k);
                    if j < i {
                        assert(before.order()[j] == k);
                        assert(j0 == j);
                    } else {
                        assert(before.order()[j + 1] == k);
                        assert(j0 == j + 1);
                    }
                }
                assert(after@ =~= before@.remove(key@));
            }
        } else {
            proof {
                assert(self@ =~= before@.remove(key@));
            }
        }
    }
}

/// The field map of an update form: one column for each field that the request
/// supplied, `Null` for a field sent as null, and nothing for a field not sent.
/// Where a name occurs twice, the later field decides the value.
pub fn extract_fields(form: &Vec<FormField>) -> (fields: FieldMap)
    ensures
        fields.wf(),
        fields@ == extracted(form_view(form@)),
        fields.order() == extracted_order(form_view(form@)),
{
    let mut fields = FieldMap::new();
    let mut i: usize = 0;
    while i < form.len()
        invariant
            i <= form@.len(),
            fields.wf(),
            fields@ == extracted(form_view(form@).take(i as int)),
            fields.order() == extracted_order(form_view(form@).take(i as int)),
        decreases form@.len() - i,
    {
        proof {
            assert(form_view(form@).take(i + 1).drop_last() =~= form_view(form@).take(i as int));
            assert(form_view(form@).take(i + 1).last() == form@[i as int]@);
        }
        match &form[i].value {
            Patch::Undefined => {},
            Patch::Null => {
                fields.insert(form[i].name, FieldValue::Null);
            },
            Patch::Value(v) => {
                fields.insert(form[i].name, v.duplicate());
            },
        }
        i += 1;
    }
    proof {
        assert(form_view(form@).take(form@.len() as int) =~= form_view(form@));
    }
    fields
}

/// The extracted map holds a column exactly when some field of that name was
/// supplied: fields that were not sent never appear, supplied ones always do.
/// The order lists the same columns, each once.
pub proof fn lemma_extract_complete(form: Seq<(Seq<char>, Option<FieldSpec>)>, key: Seq<char>)
    ensures
        extracted(form).contains_key(key) <==> exists|i: int|
            0 <= i < form.len() && (#[trigger] form[i]).0 == key && form[i].1 is Some,
        extracted_order(form).contains(key) <==> extracted(form).contains_key(key),
        extracted_order(form).no_duplicates(),
    decreases form.len(),
{
    if form.len() > 0 {
        let rest = form.drop_last();
        lemma_extract_complete(rest, key);
        let last = form.last();
        if extracted(rest).contains_key(key) {
            let i = choose|i: int| 0 <= i < rest.len() && (#[trigger] rest[i]).0 == key && rest[i].1 is Some;
            assert(form[i].0 == key && form[i].1 is Some);
        }
        if exists|i: int| 0 <= i < form.len() && (#[trigger] form[i]).0 == key && form[i].1 is Some {
            let i = choose|i: int|
                0 <= i < form.len() && (#[trigger] form[i]).0 == key && form[i].1 is Some;
            if i < rest.len() {
                assert(rest[i].0 == key && rest[i].1 is Some);
            }
        }
        let order = extracted_order(rest);
        if last.1 is Some && !order.contains(last.0) {
            let pushed = order.push(last.0);
            assert(pushed[order.len() as int] == last.0);
            if order.contains(key) {
                let j = order.index_of(key);
                assert(pushed[j] == key);
            }
            lemma_extract_complete(rest, last.0);
        }
    }
}

/// A patched text as contracts see it.
pub open spec fn text_view(p: Patch<String>) -> Patch<Seq<char>> {
    match p {
        Patch::Undefined => Patch::Undefined,
        Patch::Null => Patch::Null,
        Patch::Value(s) => Patch::Value(s@),
    }
}

/// A patched nullable text as contracts see it.
pub open spec fn optional_text_view(p: Patch<Option<String>>) -> Patch<Option<Seq<char>>> {
    match p {
        Patch::Undefined => Patch::Undefined,
        Patch::Null => Patch::Null,
        Patch::Value(None) => Patch::Value(None),
        Patch::Value(Some(s)) => Patch::Value(Some(s@)),
    }
}

/// What a patched text contributes to an update.
pub open spec fn text_patch(p: Patch<Seq<char>>) -> Option<FieldSpec> {
    match p {
        Patch::Undefined => None,
        Patch::Null => Some(FieldSpec::Null),
        Patch::Value(s) => Some(FieldSpec::Text(s)),
    }
}

/// What a patched nullable text contributes to an update.
pub open spec fn optional_text_patch(p: Patch<Option<Seq<char>>>) -> Option<FieldSpec> {
    match p {
        Patch::Undefined => None,
        Patch::Null => Some(FieldSpec::Null),
        Patch::Value(None) => Some(FieldSpec::Null),
        Patch::Value(Some(s)) => Some(FieldSpec::Text(s)),
    }
}

/// What a patched flag contributes to an update.
pub open spec fn flag_patch(p: Patch<bool>) -> Option<FieldSpec> {
    match p {
        Patch::Undefined => None,
        Patch::Null => Some(FieldSpec::Null),
        Patch::Value(b) => Some(FieldSpec::Bool(b)),
    }
}

/// What a patched nullable flag contributes to an update.
pub open spec fn optional_flag_patch(p: Patch<Option<bool>>) -> Option<FieldSpec> {
    match p {
        Patch::Undefined => None,
        Patch::Null => Some(FieldSpec::Null),
        Patch::Value(None) => Some(FieldSpec::Null),
        Patch::Value(Some(b)) => Some(FieldSpec::Bool(b)),
    }
}

/// What a patched number contributes to an update.
pub open spec fn number_patch(p: Patch<i16>) -> Option<FieldSpec> {
    match p {
        Patch::Undefined => None,
        Patch::Null => Some(FieldSpec::Null),
        Patch::Value(n) => Some(FieldSpec::Int(n as int)),
    }
}

/// What a patched nullable number contributes to an update.
pub open spec fn optional_number_patch(p: Patch<Option<i16>>) -> Option<FieldSpec> {
    match p {
        Patch::Undefined => None,
        Patch::Null => Some(FieldSpec::Null),
        Patch::Value(None) => Some(FieldSpec::Null),
        Patch::Value(Some(n)) => Some(FieldSpec::Int(n as int)),
    }
}

/// The form field of a patched text.
pub fn text_field(name: &'static str, p: &Patch<String>) -> (r: FormField)
    ensures
        r@ == (name@, text_patch(text_view(*p))),
{
    let value = match p {
        Patch::Undefined => Patch::Undefined,
        Patch::Null => Patch::Null,
        Patch::Value(s) => Patch::Value(FieldValue::Text(String::from_str(s.as_str()))),
    };
    FormField { name, value }
}

/// The form field of a patched nullable text.
pub fn optional_text_field(name: &'static str, p: &Patch<Option<String>>) -> (r: FormField)
    ensures
        r@ == (name@, optional_text_patch(optional_text_view(*p))),
{
    let value = match p {
        Patch::Undefined => Patch::Undefined,
        Patch::Null => Patch::Null,
        Patch::Value(None) => Patch::Value(FieldValue::Null),
        Patch::Value(Some(s)) => Patch::Value(FieldValue::Text(String::from_str(s.as_str()))),
    };
    FormField { name, value }
}

/// The form field of a patched flag.
pub fn flag_field(name: &'static str, p: &Patch<bool>) -> (r: FormField)
    ensures
        r@ == (name@, flag_patch(*p)),
{
    let value = match p {
        Patch::Undefined => Patch::Undefined,
        Patch::Null => Patch::Null,
        Patch::Value(b) => Patch::Value(FieldValue::Bool(*b)),
    };
    FormField { name, value }
}

/// The form field of a patched nullable flag.
pub fn optional_flag_field(name: &'static str, p: &Patch<Option<bool>>) -> (r: FormField)
    ensures
        r@ == (name@, optional_flag_patch(*p)),
{
    let value = match p {
        Patch::Undefined => Patch::Undefined,
        Patch::Null => Patch::Null,
        Patch::Value(None) => Patch::Value(FieldValue::Null),
        Patch::Value(Some(b)) => Patch::Value(FieldValue::Bool(*b)),
    };
    FormField { name, value }
}

/// The form field of a patched number.
pub fn number_field(name: &'static str, p: &Patch<i16>) -> (r: FormField)
    ensures
        r@ == (name@, number_patch(*p)),
{
    let value = match p {
        Patch::Undefined => Patch::Undefined,
        Patch::Null => Patch::Null,
        Patch::Value(n) => Patch::Value(FieldValue::Int(*n as i64)),
    };
    FormField { name, value }
}

/// The form field of a patched nullable number.
pub fn optional_number_field(name: &'static str, p: &Patch<Option<i16>>) -> (r: FormField)
    ensures
        r@ == (name@, optional_number_patch(*p)),
{
    let value = match p {
        Patch::Undefined => Patch::Undefined,
        Patch::Null => Patch::Null,
        Patch::Value(None) => Patch::Value(FieldValue::Null),
        Patch::Value(Some(n)) => Patch::Value(FieldValue::Int(*n as i64)),
    };
    FormField { name, value }
}

} // verus!
