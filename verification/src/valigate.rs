use vstd::prelude::*;
use vstd::string::*;

use crate::text::{decimal, push_decimal, push_repeated, push_str, repeated};

verus! {

/// What a gate makes of its input: a value, an error that stops the
/// pipeline, or a value passed on together with an error.
pub enum GateResult<T, E> {
    Passed(T),
    ErrCut(E),
    ErrPass(T, E),
}

/// A check (or conversion) applied to a field's input.
pub trait Gate<I> {
    type Out;

    type Err;

    spec fn spec_parse(self, input: I) -> GateResult<Self::Out, Self::Err>;

    fn parse(self, input: I) -> (r: GateResult<Self::Out, Self::Err>)
        ensures
            r == self.spec_parse(input),
    ;
}

/// An error that can describe itself in text.
pub trait ErrorMessage {
    spec fn spec_message(&self) -> Seq<char>;

    fn message(&self) -> (s: String)
        ensures
            s@ == self.spec_message(),
    ;
}

/// A field that was not given.
pub struct MissingField(pub &'static str);

impl ErrorMessage for MissingField {
    open spec fn spec_message(&self) -> Seq<char> {
        "field `"@ + self.0@ + "` is missing"@
    }

    fn message(&self) -> (s: String) {
        let mut s = String::new();
        push_str(&mut s, "field `");
        push_str(&mut s, self.0);
        push_str(&mut s, "` is missing");
        s
    }
}

/// The error state of a field: invalid, missing, or none.
pub enum MaybeFieldError<E> {
    Invalid(E),
    Missing,
    Clean,
}

impl<E> Default for MaybeFieldError<E> {
    fn default() -> (e: MaybeFieldError<E>)
        ensures
            e is Clean,
    {
        MaybeFieldError::Clean
    }
}

/// The errors of several gates, one slot per gate.
pub struct GateErrors<E>(pub E);

/// A field error kept as the error it is.
pub struct FieldErr<E>(pub E);

/// An error reduced to its message.
#[derive(Debug)]
pub struct AnyError(pub String);

/// The messages of the errors found on one field.
#[derive(Debug)]
pub struct FieldErrors(pub Vec<AnyError>);

pub open spec fn any_error_messages(s: Seq<AnyError>) -> Seq<Seq<char>> {
    s.map_values(|e: AnyError| e.0@)
}

impl FieldErrors {
    pub open spec fn messages(&self) -> Seq<Seq<char>> {
        any_error_messages(self.0@)
    }

    pub fn new() -> (e: FieldErrors)
        ensures
            e.messages() == Seq::<Seq<char>>::empty(),
    {
        let e = FieldErrors(Vec::new());
        assert(e.messages() =~= Seq::<Seq<char>>::empty());
        e
    }

    pub fn push<E: ErrorMessage>(&mut self, err: E)
        ensures
            final(self).messages() == old(self).messages().push(err.spec_message()),
    {
        let m = err.message();
        self.0.push(AnyError(m));
        assert(final(self).messages() =~= old(self).messages().push(err.spec_message()));
    }

    pub fn from_one<E: ErrorMessage>(err: E) -> (e: FieldErrors)
        ensures
            e.messages() == seq![err.spec_message()],
    {
        let mut e = FieldErrors::new();
        e.push(err);
        assert(e.messages() =~= seq![err.spec_message()]);
        e
    }
}

impl Default for FieldErrors {
    fn default() -> (e: FieldErrors)
        ensures
            e.messages() == Seq::<Seq<char>>::empty(),
    {
        FieldErrors::new()
    }
}

/// The key an error is found under: an index into a list or a field name.
#[derive(Debug)]
pub enum ErrorKey {
    Index(usize),
    Field(String),
}

pub open spec fn key_text(key: ErrorKey) -> Seq<char> {
    match key {
        ErrorKey::Index(i) => decimal(i as nat),
        ErrorKey::Field(f) => f@,
    }
}

impl ErrorKey {
    /// Appends the key as it is displayed.
    pub fn push_text(&self, s: &mut String)
        ensures
            final(s)@ == old(s)@ + key_text(*self),
    {
        match self {
            ErrorKey::Index(i) => push_decimal(s, *i),
            ErrorKey::Field(f) => push_str(s, f.as_str()),
        }
    }
}

/// Errors found under keys of a list or a record.
#[derive(Debug)]
pub struct MapErrors(pub Vec<(ErrorKey, Error)>);

/// Two keys name the same entry.
pub open spec fn same_key(a: ErrorKey, b: ErrorKey) -> bool {
    match (a, b) {
        (ErrorKey::Index(i), ErrorKey::Index(j)) => i == j,
        (ErrorKey::Field(x), ErrorKey::Field(y)) => x@ == y@,
        _ => false,
    }
}

/// `i` is the first entry under `key`.
pub open spec fn is_key_position(entries: Seq<(ErrorKey, Error)>, key: ErrorKey, i: int) -> bool {
    &&& 0 <= i < entries.len()
    &&& same_key(entries[i].0, key)
    &&& forall|j: int| 0 <= j < i ==> !same_key(#[trigger] entries[j].0, key)
}

/// The position of the entry under `key`, if there is one.
pub open spec fn key_position(entries: Seq<(ErrorKey, Error)>, key: ErrorKey) -> Option<int> {
    if exists|i: int| is_key_position(entries, key, i) {
        Some(choose|i: int| is_key_position(entries, key, i))
    } else {
        None
    }
}

/// The entries after storing `err` under `key`: it replaces the entry already
/// under that key, or comes last.
pub open spec fn keyed_insert(entries: Seq<(ErrorKey, Error)>, key: ErrorKey, err: Error) -> Seq<
    (ErrorKey, Error),
> {
    match key_position(entries, key) {
        Some(i) => entries.update(i, (key, err)),
        None => entries.push((key, err)),
    }
}

fn keys_equal(a: &ErrorKey, b: &ErrorKey) -> (r: bool)
    ensures
        r == same_key(*a, *b),
{
    match (a, b) {
        (ErrorKey::Index(i), ErrorKey::Index(j)) => *i == *j,
        (ErrorKey::Field(x), ErrorKey::Field(y)) => *x == *y,
        _ => false,
    }
}

impl MapErrors {
    pub fn new() -> (e: MapErrors)
        ensures
            e.0@ == Seq::<(ErrorKey, Error)>::empty(),
    {
        MapErrors(Vec::new())
    }

    fn insert_keyed(&mut self, key: ErrorKey, err: Error)
        ensures
            final(self).0@ == keyed_insert(old(self).0@, key, err),
    {
        let mut i: usize = 0;
        while i < self.0.len()
            invariant
                i <= self.0@.len(),
                self.0@ == old(self).0@,
                forall|j: int| 0 <= j < i ==> !same_key(#[trigger] self.0@[j].0, key),
            decreases self.0@.len() - i,
        {
            if keys_equal(&self.0[i].0, &key) {
                proof {
                    let c = choose|x: int| is_key_position(old(self).0@, key, x);
                    assert(is_key_position(old(self).0@, key, i as int));
                    if c < i {
                        assert(!same_key(old(self).0@[c].0, key));
                    } else if c > i {
                        assert(!same_key(old(self).0@[i as int].0, key));
                    }
                }
                self.0.set(i, (key, err));
                return ;
            }
            i = i + 1;
        }
        assert(!exists|x: int| is_key_position(old(self).0@, key, x));
        self.0.push((key, err));
    }

    /// Stores `err` under list index `index`.
    pub fn insert_index(&mut self, index: usize, err: Error)
        ensures
            final(self).0@ == keyed_insert(old(self).0@, ErrorKey::Index(index), err),
    {
        self.insert_keyed(ErrorKey::Index(index), err);
    }

    /// Stores `err` under field name `key`.
    pub fn insert_field(&mut self, key: String, err: Error)
        ensures
            final(self).0@ == keyed_insert(old(self).0@, ErrorKey::Field(key), err),
    {
        self.insert_keyed(ErrorKey::Field(key), err);
    }
}

impl Default for MapErrors {
    fn default() -> (e: MapErrors)
        ensures
            e.0@ == Seq::<(ErrorKey, Error)>::empty(),
    {
        MapErrors::new()
    }
}

/// A validation error: the errors of one field, or errors under keys.
#[derive(Debug)]
pub enum Error {
    Field(FieldErrors),
    Keyed(MapErrors),
}

/// The messages of a field, each followed by `"; "`.
pub open spec fn field_text(msgs: Seq<Seq<char>>) -> Seq<char>
    decreases msgs.len(),
{
    if msgs.len() == 0 {
        Seq::empty()
    } else {
        field_text(msgs.drop_last()) + msgs.last() + "; "@
    }
}

/// How an error is displayed at nesting depth `depth`: a keyed error puts
/// each key on a new line, indented by one tab per level.
pub open spec fn error_text(e: Error, depth: nat) -> Seq<char>
    decreases e, 0nat,
{
    match e {
        Error::Field(f) => field_text(f.messages()),
        Error::Keyed(m) => entries_text(m.0@, depth),
    }
}

pub open spec fn entries_text(entries: Seq<(ErrorKey, Error)>, depth: nat) -> Seq<char>
    decreases entries, entries.len(),
{
    if entries.len() == 0 {
        Seq::empty()
    } else {
        entries_text(entries.drop_last(), depth) + "\n"@ + repeated("\t"@, depth) + key_text(
            entries.last().0,
        ) + ": "@ + error_text(entries.last().1, depth + 1)
    }
}

/// How deeply keyed errors nest inside `e`.
pub open spec fn error_depth(e: Error) -> nat
    decreases e, 0nat,
{
    match e {
        Error::Field(_) => 0,
        Error::Keyed(m) => 1 + entries_depth(m.0@),
    }
}

pub open spec fn entries_depth(entries: Seq<(ErrorKey, Error)>) -> nat
    decreases entries, entries.len(),
{
    if entries.len() == 0 {
        0
    } else {
        let a = entries_depth(entries.drop_last());
        let b = error_depth(entries.last().1);
        if a >= b {
            a
        } else {
            b
        }
    }
}

pub proof fn lemma_entries_depth(entries: Seq<(ErrorKey, Error)>, i: int)
    requires
        0 <= i < entries.len(),
    ensures
        error_depth(entries[i].1) <= entries_depth(entries),
    decreases entries.len(),
{
    if i < entries.len() - 1 {
        lemma_entries_depth(entries.drop_last(), i);
        assert(entries.drop_last()[i] == entries[i]);
    }
}

/// Appends the display of `error` at nesting depth `depth`.
fn display(error: &Error, s: &mut String, depth: usize)
    requires
        depth + error_depth(*error) < usize::MAX,
    ensures
        final(s)@ == old(s)@ + error_text(*error, depth as nat),
    decreases *error, 0nat,
{
    match error {
        Error::Field(errors) => {
            let mut i: usize = 0;
            let ghost msgs = errors.messages();
            assert(msgs.take(0) =~= Seq::<Seq<char>>::empty());
            while i < errors.0.len()
                invariant
                    i <= errors.0@.len(),
                    msgs == errors.messages(),
                    s@ == old(s)@ + field_text(msgs.take(i as int)),
                decreases errors.0@.len() - i,
            {
                push_str(s, errors.0[i].0.as_str());
                push_str(s, "; ");
                proof {
                    assert(msgs.take(i + 1).drop_last() =~= msgs.take(i as int));
                    assert(s@ =~= old(s)@ + field_text(msgs.take(i + 1)));
                }
                i = i + 1;
            }
            assert(msgs.take(msgs.len() as int) =~= msgs);
        },
        Error::Keyed(errors) => {
            let mut i: usize = 0;
            let ghost es = errors.0@;
            assert(es.take(0) =~= Seq::<(ErrorKey, Error)>::empty());
            while i < errors.0.len()
                invariant
                    i <= es.len(),
                    es == errors.0@,
                    depth + 1 + entries_depth(es) < usize::MAX,
                    *error == Error::Keyed(*errors),
                    s@ == old(s)@ + entries_text(es.take(i as int), depth as nat),
                decreases es.len() - i,
            {
                let entry = &errors.0[i];
                push_str(s, "\n");
                push_repeated(s, "\t", depth);
                entry.0.push_text(s);
                push_str(s, ": ");
                proof {
                    lemma_entries_depth(es, i as int);
                    assert(decreases_to!(*error => (*error)->Keyed_0));
                    assert(decreases_to!((*error)->Keyed_0 => errors.0));
                    assert(decreases_to!(errors.0 => errors.0@));
                    assert(decreases_to!(errors.0@ => errors.0@[i as int]));
                    assert(decreases_to!(errors.0@[i as int] => errors.0@[i as int].1));
                    assert(decreases_to!(*error => entry.1));
                }
                display(&entry.1, s, depth + 1);
                proof {
                    assert(es.take(i + 1).drop_last() =~= es.take(i as int));
                    assert(s@ =~= old(s)@ + entries_text(es.take(i + 1), depth as nat));
                }
                i = i + 1;
            }
            assert(es.take(es.len() as int) =~= es);
        },
    }
}

/// An error together with its display.
pub struct ErrorDisplay(pub Error);

impl ErrorDisplay {
    /// The error as text, with nested keys on indented lines.
    pub fn to_text(&self) -> (s: String)
        requires
            error_depth(self.0) < usize::MAX,
        ensures
            s@ == error_text(self.0, 0),
    {
        let mut s = String::new();
        display(&self.0, &mut s, 0);
        assert(Seq::<char>::empty() + error_text(self.0, 0) =~= error_text(self.0, 0));
        s
    }
}

/// Gate errors that add their messages to a field's errors.
pub trait CollectsErrors {
    spec fn spec_messages(self) -> Seq<Seq<char>>;

    fn collect_errs(self, errors: &mut FieldErrors)
        ensures
            final(errors).messages() == old(errors).messages() + self.spec_messages(),
    ;
}

impl<E: ErrorMessage> CollectsErrors for FieldErr<E> {
    open spec fn spec_messages(self) -> Seq<Seq<char>> {
        seq![self.0.spec_message()]
    }

    fn collect_errs(self, errors: &mut FieldErrors) {
        errors.push(self.0);
        assert(final(errors).messages() =~= old(errors).messages() + seq![self.0.spec_message()]);
    }
}

pub open spec fn option_messages<E: CollectsErrors>(e: Option<E>) -> Seq<Seq<char>> {
    match e {
        Some(e) => e.spec_messages(),
        None => Seq::empty(),
    }
}

fn collect_option<E: CollectsErrors>(e: Option<E>, errors: &mut FieldErrors)
    ensures
        final(errors).messages() == old(errors).messages() + option_messages(e),
{
    match e {
        Some(e) => e.collect_errs(errors),
        None => {
            assert(old(errors).messages() + Seq::<Seq<char>>::empty() =~= old(errors).messages());
        },
    }
}

impl<E0: CollectsErrors> CollectsErrors for GateErrors<(Option<E0>,)> {
    open spec fn spec_messages(self) -> Seq<Seq<char>> {
        option_messages(self.0.0)
    }

    fn collect_errs(self, errors: &mut FieldErrors) {
        collect_option(self.0.0, errors);
    }
}

impl<E0: CollectsErrors, E1: CollectsErrors> CollectsErrors for GateErrors<(Option<E0>, Option<E1>)> {
    open spec fn spec_messages(self) -> Seq<Seq<char>> {
        option_messages(self.0.0) + option_messages(self.0.1)
    }

    fn collect_errs(self, errors: &mut FieldErrors) {
        let (e0, e1) = self.0;
        collect_option(e0, errors);
        collect_option(e1, errors);
        assert(final(errors).messages() =~= old(errors).messages() + (option_messages(e0)
            + option_messages(e1)));
    }
}

impl<E0: CollectsErrors, E1: CollectsErrors, E2: CollectsErrors> CollectsErrors for GateErrors<
    (Option<E0>, Option<E1>, Option<E2>),
> {
    open spec fn spec_messages(self) -> Seq<Seq<char>> {
        option_messages(self.0.0) + option_messages(self.0.1) + option_messages(self.0.2)
    }

    fn collect_errs(self, errors: &mut FieldErrors) {
        let (e0, e1, e2) = self.0;
        collect_option(e0, errors);
        collect_option(e1, errors);
        collect_option(e2, errors);
        assert(final(errors).messages() =~= old(errors).messages() + (option_messages(e0)
            + option_messages(e1) + option_messages(e2)));
    }
}

/// A type that can be built, with validation, from an input.
pub trait Valid: Sized {
    type In;

    /// Parsing `input` succeeds.
    spec fn valid_input(input: Self::In) -> bool;

    /// `out` is what a successful parse of `input` gives.
    spec fn parsed(input: Self::In, out: Self) -> bool;

    /// `e` is what a failed parse of `input` reports.
    spec fn rejected(input: Self::In, e: Error) -> bool;

    fn parse(input: Self::In) -> (r: Result<Self, Error>)
        ensures
            r is Ok <==> Self::valid_input(input),
            r matches Ok(v) ==> Self::parsed(input, v),
            r matches Err(e) ==> Self::rejected(input, e),
    ;
}

/// A validated type whose input goes through a gate.
pub trait GatedField: Valid {
    type Gate: Gate<Self::In>;
}

/// What `gate` lets through, or its messages as a field error.
pub fn field_pipe<In, G: Gate<In>>(input: In, gate: G) -> (r: Result<G::Out, Error>) where
    G::Err: CollectsErrors,

    ensures
        match gate.spec_parse(input) {
            GateResult::Passed(out) => r == Ok::<G::Out, Error>(out),
            GateResult::ErrCut(err) => r matches Err(Error::Field(f)) && f.messages()
                == err.spec_messages(),
            GateResult::ErrPass(_, err) => r matches Err(Error::Field(f)) && f.messages()
                == err.spec_messages(),
        },
{
    match gate.parse(input) {
        GateResult::Passed(out) => Ok(out),
        GateResult::ErrCut(err) => {
            let mut errors = FieldErrors::new();
            err.collect_errs(&mut errors);
            assert(errors.messages() =~= err.spec_messages());
            Err(Error::Field(errors))
        },
        GateResult::ErrPass(_, err) => {
            let mut errors = FieldErrors::new();
            err.collect_errs(&mut errors);
            assert(errors.messages() =~= err.spec_messages());
            Err(Error::Field(errors))
        },
    }
}

/// `entries` lists the failures among `inputs`, each under its index, in
/// order.
pub open spec fn failures_listed<V: Valid>(inputs: Seq<V::In>, entries: Seq<(ErrorKey, Error)>) -> bool
    decreases inputs.len(),
{
    if inputs.len() == 0 {
        entries.len() == 0
    } else if V::valid_input(inputs.last()) {
        failures_listed::<V>(inputs.drop_last(), entries)
    } else {
        &&& entries.len() > 0
        &&& entries.last().0 == ErrorKey::Index((inputs.len() - 1) as usize)
        &&& V::rejected(inputs.last(), entries.last().1)
        &&& failures_listed::<V>(inputs.drop_last(), entries.drop_last())
    }
}

/// The failures listed for `inputs` are keyed by indices below its length.
proof fn lemma_failure_keys_below<V: Valid>(inputs: Seq<V::In>, entries: Seq<(ErrorKey, Error)>)
    requires
        failures_listed::<V>(inputs, entries),
    ensures
        forall|k: int|
            0 <= k < entries.len() ==> ((#[trigger] entries[k]).0 matches ErrorKey::Index(j) && j
                < inputs.len()),
    decreases inputs.len(),
{
    if inputs.len() > 0 {
        if V::valid_input(inputs.last()) {
            lemma_failure_keys_below::<V>(inputs.drop_last(), entries);
        } else {
            lemma_failure_keys_below::<V>(inputs.drop_last(), entries.drop_last());
            assert forall|k: int| 0 <= k < entries.len() implies ((#[trigger] entries[k]).0 matches ErrorKey::Index(j)
                && j < inputs.len()) by {
                if k < entries.len() - 1 {
                    assert(entries[k] == entries.drop_last()[k]);
                }
            }
        }
    }
}

impl<V: Valid> Valid for Vec<V> {
    type In = Vec<V::In>;

    open spec fn valid_input(input: Vec<V::In>) -> bool {
        forall|i: int| 0 <= i < input@.len() ==> V::valid_input(#[trigger] input@[i])
    }

    open spec fn parsed(input: Vec<V::In>, out: Vec<V>) -> bool {
        &&& out@.len() == input@.len()
        &&& forall|i: int| 0 <= i < input@.len() ==> V::parsed(#[trigger] input@[i], out@[i])
    }

    open spec fn rejected(input: Vec<V::In>, e: Error) -> bool {
        e matches Error::Keyed(m) && failures_listed::<V>(input@, m.0@)
    }

    /// Parses every element; when any fails, reports the errors of all
    /// failing elements under their indices.
    fn parse(input: Vec<V::In>) -> (r: Result<Vec<V>, Error>) {
        let ghost inputs = input@;
        let mut input = input;
        assert(input.len() == inputs.len());
        let mut values: Vec<V> = Vec::new();
        let mut errors = MapErrors::new();
        let mut i: usize = 0;
        let mut failed = false;
        assert(inputs.take(0) =~= Seq::<V::In>::empty());
        assert(inputs.subrange(0, inputs.len() as int) =~= inputs);
        while input.len() > 0
            invariant
                i <= inputs.len(),
                inputs.len() <= usize::MAX,
                input@ == inputs.subrange(i as int, inputs.len() as int),
                failures_listed::<V>(inputs.take(i as int), errors.0@),
                failed <==> exists|j: int| 0 <= j < i && !V::valid_input(#[trigger] inputs[j]),
                !failed ==> values@.len() == i,
                !failed ==> forall|j: int| 0 <= j < i ==> V::parsed(#[trigger] inputs[j], values@[j]),
            decreases input.len(),
        {
            let x = input.remove(0);
            proof {
                assert(inputs[i as int] == x);
                assert(inputs.take(i + 1).drop_last() =~= inputs.take(i as int));
                assert(inputs.take(i + 1).last() == x);
                assert(input@ =~= inputs.subrange(i + 1, inputs.len() as int));
            }
            let ghost before = errors.0@;
            match V::parse(x) {
                Ok(v) => {
                    if !failed {
                        values.push(v);
                    }
                },
                Err(e) => {
                    proof {
                        lemma_failure_keys_below::<V>(inputs.take(i as int), errors.0@);
                        if key_position(errors.0@, ErrorKey::Index(i)) is Some {
                            let k = choose|k: int| is_key_position(errors.0@, ErrorKey::Index(i), k);
                            assert(same_key(errors.0@[k].0, ErrorKey::Index(i)));
                        }
                    }
                    errors.insert_index(i, e);
                    failed = true;
                    proof {
                        assert(errors.0@.drop_last() =~= before);
                    }
                },
            }
            i = i + 1;
        }
        proof {
            assert(inputs.take(i as int) =~= inputs);
        }
        if failed {
            Err(Error::Keyed(errors))
        } else {
            Ok(values)
        }
    }
}

impl Valid for usize {
    type In = usize;

    open spec fn valid_input(input: usize) -> bool {
        true
    }

    open spec fn parsed(input: usize, out: usize) -> bool {
        out == input
    }

    open spec fn rejected(input: usize, e: Error) -> bool {
        false
    }

    fn parse(input: usize) -> (r: Result<usize, Error>) {
        Ok(input)
    }
}

impl Valid for u64 {
    type In = u64;

    open spec fn valid_input(input: u64) -> bool {
        true
    }

    open spec fn parsed(input: u64, out: u64) -> bool {
        out == input
    }

    open spec fn rejected(input: u64, e: Error) -> bool {
        false
    }

    fn parse(input: u64) -> (r: Result<u64, Error>) {
        Ok(input)
    }
}

impl Valid for u8 {
    type In = u8;

    open spec fn valid_input(input: u8) -> bool {
        true
    }

    open spec fn parsed(input: u8, out: u8) -> bool {
        out == input
    }

    open spec fn rejected(input: u8, e: Error) -> bool {
        false
    }

    fn parse(input: u8) -> (r: Result<u8, Error>) {
        Ok(input)
    }
}

impl Valid for u16 {
    type In = u16;

    open spec fn valid_input(input: u16) -> bool {
        true
    }

    open spec fn parsed(input: u16, out: u16) -> bool {
        out == input
    }

    open spec fn rejected(input: u16, e: Error) -> bool {
        false
    }

    fn parse(input: u16) -> (r: Result<u16, Error>) {
        Ok(input)
    }
}

impl Valid for u32 {
    type In = u32;

    open spec fn valid_input(input: u32) -> bool {
        true
    }

    open spec fn parsed(input: u32, out: u32) -> bool {
        out == input
    }

    open spec fn rejected(input: u32, e: Error) -> bool {
        false
    }

    fn parse(input: u32) -> (r: Result<u32, Error>) {
        Ok(input)
    }
}

impl Valid for u128 {
    type In = u128;

    open spec fn valid_input(input: u128) -> bool {
        true
    }

    open spec fn parsed(input: u128, out: u128) -> bool {
        out == input
    }

    open spec fn rejected(input: u128, e: Error) -> bool {
        false
    }

    fn parse(input: u128) -> (r: Result<u128, Error>) {
        Ok(input)
    }
}

impl Valid for isize {
    type In = isize;

    open spec fn valid_input(input: isize) -> bool {
        true
    }

    open spec fn parsed(input: isize, out: isize) -> bool {
        out == input
    }

    open spec fn rejected(input: isize, e: Error) -> bool {
        false
    }

    fn parse(input: isize) -> (r: Result<isize, Error>) {
        Ok(input)
    }
}

impl Valid for i8 {
    type In = i8;

    open spec fn valid_input(input: i8) -> bool {
        true
    }

    open spec fn parsed(input: i8, out: i8) -> bool {
        out == input
    }

    open spec fn rejected(input: i8, e: Error) -> bool {
        false
    }

    fn parse(input: i8) -> (r: Result<i8, Error>) {
        Ok(input)
    }
}

impl Valid for i16 {
    type In = i16;

    open spec fn valid_input(input: i16) -> bool {
        true
    }

    open spec fn parsed(input: i16, out: i16) -> bool {
        out == input
    }

    open spec fn rejected(input: i16, e: Error) -> bool {
        false
    }

    fn parse(input: i16) -> (r: Result<i16, Error>) {
        Ok(input)
    }
}

impl Valid for i32 {
    type In = i32;

    open spec fn valid_input(input: i32) -> bool {
        true
    }

    open spec fn parsed(input: i32, out: i32) -> bool {
        out == input
    }

    open spec fn rejected(input: i32, e: Error) -> bool {
        false
    }

    fn parse(input: i32) -> (r: Result<i32, Error>) {
        Ok(input)
    }
}

impl Valid for i128 {
    type In = i128;

    open spec fn valid_input(input: i128) -> bool {
        true
    }

    open spec fn parsed(input: i128, out: i128) -> bool {
        out == input
    }

    open spec fn rejected(input: i128, e: Error) -> bool {
        false
    }

    fn parse(input: i128) -> (r: Result<i128, Error>) {
        Ok(input)
    }
}

impl Valid for i64 {
    type In = i64;

    open spec fn valid_input(input: i64) -> bool {
        true
    }

    open spec fn parsed(input: i64, out: i64) -> bool {
        out == input
    }

    open spec fn rejected(input: i64, e: Error) -> bool {
        false
    }

    fn parse(input: i64) -> (r: Result<i64, Error>) {
        Ok(input)
    }
}

impl Valid for String {
    type In = String;

    open spec fn valid_input(input: String) -> bool {
        true
    }

    open spec fn parsed(input: String, out: String) -> bool {
        out == input
    }

    open spec fn rejected(input: String, e: Error) -> bool {
        false
    }

    fn parse(input: String) -> (r: Result<String, Error>) {
        Ok(input)
    }
}

/// A gate that lets every input through.
pub struct NoopField;

/// The error of a gate that cannot fail; it carries no message.
pub struct NoError;

impl CollectsErrors for NoError {
    open spec fn spec_messages(self) -> Seq<Seq<char>> {
        Seq::empty()
    }

    fn collect_errs(self, errors: &mut FieldErrors) {
        assert(old(errors).messages() + Seq::<Seq<char>>::empty() =~= old(errors).messages());
    }
}

impl<T> Gate<T> for NoopField {
    type Out = T;

    type Err = NoError;

    open spec fn spec_parse(self, input: T) -> GateResult<T, NoError> {
        GateResult::Passed(input)
    }

    fn parse(self, input: T) -> (r: GateResult<T, NoError>) {
        GateResult::Passed(input)
    }
}

/// Something with a length.
pub trait Count {
    spec fn spec_count(&self) -> usize;

    fn count(&self) -> (n: usize)
        ensures
            n == self.spec_count(),
    ;
}

impl Count for String {
    /// The number of characters.
    open spec fn spec_count(&self) -> usize {
        self@.len() as usize
    }

    fn count(&self) -> (n: usize) {
        self.as_str().unicode_len()
    }
}

impl<T> Count for Vec<T> {
    open spec fn spec_count(&self) -> usize {
        self@.len() as usize
    }

    fn count(&self) -> (n: usize) {
        self.len()
    }
}

impl<T> Count for Box<[T]> {
    open spec fn spec_count(&self) -> usize {
        (**self)@.len() as usize
    }

    fn count(&self) -> (n: usize) {
        self.len()
    }
}

/// The input was shorter than `min`.
pub struct MinLenErr {
    pub min: usize,
    pub len: usize,
}

impl ErrorMessage for MinLenErr {
    open spec fn spec_message(&self) -> Seq<char> {
        "len must be at least "@ + decimal(self.min as nat) + " but was "@ + decimal(
            self.len as nat,
        )
    }

    fn message(&self) -> (s: String) {
        let mut s = String::new();
        push_str(&mut s, "len must be at least ");
        push_decimal(&mut s, self.min);
        push_str(&mut s, " but was ");
        push_decimal(&mut s, self.len);
        s
    }
}

impl CollectsErrors for MinLenErr {
    open spec fn spec_messages(self) -> Seq<Seq<char>> {
        seq![self.spec_message()]
    }

    fn collect_errs(self, errors: &mut FieldErrors) {
        errors.push(self);
        assert(final(errors).messages() =~= old(errors).messages() + seq![self.spec_message()]);
    }
}

/// Requires at least this many elements (characters for strings).
pub struct MinLen(pub usize);

impl<T: Count> Gate<T> for MinLen {
    type Out = T;

    type Err = MinLenErr;

    open spec fn spec_parse(self, input: T) -> GateResult<T, MinLenErr> {
        if input.spec_count() < self.0 {
            GateResult::ErrPass(input, MinLenErr { min: self.0, len: input.spec_count() })
        } else {
            GateResult::Passed(input)
        }
    }

    fn parse(self, input: T) -> (r: GateResult<T, MinLenErr>) {
        if input.count() < self.0 {
            let actual_len = input.count();
            return GateResult::ErrPass(input, MinLenErr { min: self.0, len: actual_len });
        }
        GateResult::Passed(input)
    }
}

/// The input was longer than `max`.
pub struct MaxLenErr {
    pub max: usize,
    pub len: usize,
}

impl ErrorMessage for MaxLenErr {
    open spec fn spec_message(&self) -> Seq<char> {
        "len must be at most "@ + decimal(self.max as nat) + " but was "@ + decimal(
            self.len as nat,
        )
    }

    fn message(&self) -> (s: String) {
        let mut s = String::new();
        push_str(&mut s, "len must be at most ");
        push_decimal(&mut s, self.max);
        push_str(&mut s, " but was ");
        push_decimal(&mut s, self.len);
        s
    }
}

impl CollectsErrors for MaxLenErr {
    open spec fn spec_messages(self) -> Seq<Seq<char>> {
        seq![self.spec_message()]
    }

    fn collect_errs(self, errors: &mut FieldErrors) {
        errors.push(self);
        assert(final(errors).messages() =~= old(errors).messages() + seq![self.spec_message()]);
    }
}

/// Allows at most this many elements (characters for strings).
pub struct MaxLen(pub usize);

impl<T: Count> Gate<T> for MaxLen {
    type Out = T;

    type Err = MaxLenErr;

    open spec fn spec_parse(self, input: T) -> GateResult<T, MaxLenErr> {
        if input.spec_count() > self.0 {
            GateResult::ErrPass(input, MaxLenErr { max: self.0, len: input.spec_count() })
        } else {
            GateResult::Passed(input)
        }
    }

    fn parse(self, input: T) -> (r: GateResult<T, MaxLenErr>) {
        if input.count() > self.0 {
            let actual_len = input.count();
            return GateResult::ErrPass(input, MaxLenErr { max: self.0, len: actual_len });
        }
        GateResult::Passed(input)
    }
}

/// The input was not below the bound.
pub struct LessThanErr {
    pub less_than: usize,
}

impl ErrorMessage for LessThanErr {
    open spec fn spec_message(&self) -> Seq<char> {
        "must be less than "@ + decimal(self.less_than as nat)
    }

    fn message(&self) -> (s: String) {
        let mut s = String::new();
        push_str(&mut s, "must be less than ");
        push_decimal(&mut s, self.less_than);
        s
    }
}

impl CollectsErrors for LessThanErr {
    open spec fn spec_messages(self) -> Seq<Seq<char>> {
        seq![self.spec_message()]
    }

    fn collect_errs(self, errors: &mut FieldErrors) {
        errors.push(self);
        assert(final(errors).messages() =~= old(errors).messages() + seq![self.spec_message()]);
    }
}

/// Requires the input to be less than the bound.
pub struct LessThan(pub usize);

impl Gate<usize> for LessThan {
    type Out = usize;

    type Err = LessThanErr;

    open spec fn spec_parse(self, input: usize) -> GateResult<usize, LessThanErr> {
        if input < self.0 {
            GateResult::Passed(input)
        } else {
            GateResult::ErrPass(input, LessThanErr { less_than: self.0 })
        }
    }

    fn parse(self, input: usize) -> (r: GateResult<usize, LessThanErr>) {
        if input < self.0 {
            return GateResult::Passed(input);
        }
        GateResult::ErrPass(input, LessThanErr { less_than: self.0 })
    }
}

/// The input had fewer elements than `min`.
pub struct MinErr {
    pub min: usize,
    pub len: usize,
}

impl ErrorMessage for MinErr {
    open spec fn spec_message(&self) -> Seq<char> {
        "len must be at least "@ + decimal(self.min as nat) + " but was "@ + decimal(
            self.len as nat,
        )
    }

    fn message(&self) -> (s: String) {
        let mut s = String::new();
        push_str(&mut s, "len must be at least ");
        push_decimal(&mut s, self.min);
        push_str(&mut s, " but was ");
        push_decimal(&mut s, self.len);
        s
    }
}

impl CollectsErrors for MinErr {
    open spec fn spec_messages(self) -> Seq<Seq<char>> {
        seq![self.spec_message()]
    }

    fn collect_errs(self, errors: &mut FieldErrors) {
        errors.push(self);
        assert(final(errors).messages() =~= old(errors).messages() + seq![self.spec_message()]);
    }
}

/// Requires at least this many elements (characters for strings).
pub struct Min(pub usize);

impl<T: Count> Gate<T> for Min {
    type Out = T;

    type Err = MinErr;

    open spec fn spec_parse(self, input: T) -> GateResult<T, MinErr> {
        if input.spec_count() < self.0 {
            GateResult::ErrPass(input, MinErr { min: self.0, len: input.spec_count() })
        } else {
            GateResult::Passed(input)
        }
    }

    fn parse(self, input: T) -> (r: GateResult<T, MinErr>) {
        if input.count() < self.0 {
            let actual_len = input.count();
            return GateResult::ErrPass(input, MinErr { min: self.0, len: actual_len });
        }
        GateResult::Passed(input)
    }
}

/// The input had more elements than `max`.
pub struct MaxErr {
    pub max: usize,
    pub len: usize,
}

impl ErrorMessage for MaxErr {
    open spec fn spec_message(&self) -> Seq<char> {
        "len must be at most "@ + decimal(self.max as nat) + " but was "@ + decimal(
            self.len as nat,
        )
    }

    fn message(&self) -> (s: String) {
        let mut s = String::new();
        push_str(&mut s, "len must be at most ");
        push_decimal(&mut s, self.max);
        push_str(&mut s, " but was ");
        push_decimal(&mut s, self.len);
        s
    }
}

impl CollectsErrors for MaxErr {
    open spec fn spec_messages(self) -> Seq<Seq<char>> {
        seq![self.spec_message()]
    }

    fn collect_errs(self, errors: &mut FieldErrors) {
        errors.push(self);
        assert(final(errors).messages() =~= old(errors).messages() + seq![self.spec_message()]);
    }
}

/// Allows at most this many elements (characters for strings).
pub struct Max(pub usize);

impl<T: Count> Gate<T> for Max {
    type Out = T;

    type Err = MaxErr;

    open spec fn spec_parse(self, input: T) -> GateResult<T, MaxErr> {
        if input.spec_count() > self.0 {
            GateResult::ErrPass(input, MaxErr { max: self.0, len: input.spec_count() })
        } else {
            GateResult::Passed(input)
        }
    }

    fn parse(self, input: T) -> (r: GateResult<T, MaxErr>) {
        if input.count() > self.0 {
            let actual_len = input.count();
            return GateResult::ErrPass(input, MaxErr { max: self.0, len: actual_len });
        }
        GateResult::Passed(input)
    }
}

} // verus!
