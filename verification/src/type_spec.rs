use vstd::prelude::*;

use crate::errors::CompileError;

verus! {

/// Handle to a structural type held in a `TypeSpecArena`. Handles are stable
/// indices; the arena owns every spec for the lifetime of a compilation unit.
#[derive(Debug, Clone, Copy)]
pub struct TypeSpecContainer(pub usize);

/// A non-owning handle to a spec: the same index, weak by convention, so that
/// indirections and back-references never form an ownership cycle.
#[derive(Debug, Clone, Copy)]
pub struct WeakTypeSpecContainer(pub usize);

/// The arena holding every structural type of one compilation unit.
#[derive(Debug)]
pub struct TypeSpecArena {
    pub specs: Vec<TypeSpec>,
}

/// The structural shape assigned to a definition node. Once a shape other
/// than `Referenced(None)` is written, it is never changed.
#[derive(Debug)]
pub struct TypeSpec {
    pub variant: TypeSpecVariant,
}

/// The closed set of structural shapes.
#[derive(Debug)]
pub enum TypeSpecVariant {
    Container(ContainerSpec),
    Enum(EnumSpec),
    MarkerEnum(MarkerEnumSpec),
    Array(ArraySpec),
    Option(OptionSpec),
    Binary(BinarySpec),
    Integer(IntegerSpec),
    Float(FloatSpec),
    Boolean,
    Unit,
    Box(WeakTypeSpecContainer),
    Opaque,
    /// A transparent indirection to another spec. `Referenced(None)` is the
    /// unassigned state and must never be queried for structural properties.
    Referenced(Option<WeakTypeSpecContainer>),
}

#[derive(Debug)]
pub struct ContainerSpec {
    pub name: String,
    pub fields: Vec<ContainerFieldSpec>,
}

#[derive(Debug)]
pub struct ContainerFieldSpec {
    pub name: String,
    pub type_spec: TypeSpecContainer,
}

#[derive(Debug)]
pub struct EnumSpec {
    pub name: String,
    pub variants: Vec<EnumVariantSpec>,
}

#[derive(Debug, Clone)]
pub struct EnumVariantSpec {
    pub name: String,
    pub type_spec: TypeSpecContainer,
}

#[derive(Debug)]
pub struct MarkerEnumSpec {
    pub name: String,
    pub variants: Vec<String>,
}

#[derive(Debug, Clone, Copy)]
pub enum ArraySize {
    Fixed(usize),
    Dynamic,
}

#[derive(Debug)]
pub struct ArraySpec {
    pub size: ArraySize,
    pub child: TypeSpecContainer,
}

#[derive(Debug)]
pub struct OptionSpec {
    pub child: TypeSpecContainer,
}

#[derive(Debug, Clone, Copy)]
pub enum IntegerSize {
    AtLeast(usize),
    IndexSize,
}

#[derive(Debug, Clone, Copy)]
pub struct IntegerSpec {
    pub size: IntegerSize,
    pub signed: bool,
}

#[derive(Debug, Clone, Copy)]
pub enum FloatSize {
    F32,
    F64,
}

#[derive(Debug, Clone, Copy)]
pub struct FloatSpec {
    pub size: FloatSize,
}

#[derive(Debug, Clone, Copy)]
pub enum BinaryEncoding {
    Raw,
    Utf8,
}

#[derive(Debug)]
pub struct BinarySpec {
    pub encoding: BinaryEncoding,
}

/// A constant value parsed against a structural shape.
#[derive(Debug, Clone, PartialEq, Eq)]
pub enum TypeSpecLiteral {
    Integer { negative: bool, magnitude: u64 },
    Boolean(bool),
}

pub open spec fn spec_is_digit(c: char) -> bool {
    48 <= c as u32 && c as u32 <= 57
}

pub open spec fn spec_digit_value(c: char) -> int {
    c as u32 - 48
}

pub open spec fn spec_all_digits(s: Seq<char>) -> bool {
    forall|i: int| 0 <= i < s.len() ==> spec_is_digit(#[trigger] s[i])
}

/// The number a digit string denotes, most significant digit first.
pub open spec fn spec_digits_value(s: Seq<char>) -> int
    decreases s.len(),
{
    if s.len() == 0 {
        0
    } else {
        spec_digits_value(s.drop_last()) * 10 + spec_digit_value(s.last())
    }
}

pub open spec fn pow10_spec(n: nat) -> int
    decreases n,
{
    if n == 0 {
        1
    } else {
        10 * pow10_spec((n - 1) as nat)
    }
}

/// The digit strings the literal model accepts: plain decimal, at most
/// eighteen digits, so that every accepted magnitude fits the model's
/// machine word.
pub open spec fn spec_integer_literal_ok(s: Seq<char>) -> bool {
    &&& 1 <= s.len() <= 18
    &&& spec_all_digits(s)
}

proof fn lemma_pow10_pos_mono(a: nat, b: nat)
    requires
        a <= b,
    ensures
        1 <= pow10_spec(a) <= pow10_spec(b),
    decreases b,
{
    if b > 0 {
        if a < b {
            lemma_pow10_pos_mono(a, (b - 1) as nat);
        } else {
            lemma_pow10_pos_mono((a - 1) as nat, (b - 1) as nat);
        }
    }
}

proof fn lemma_digits_value_bound(s: Seq<char>)
    requires
        spec_all_digits(s),
    ensures
        0 <= spec_digits_value(s) < pow10_spec(s.len() as nat),
    decreases s.len(),
{
    if s.len() > 0 {
        assert forall|i: int| 0 <= i < s.drop_last().len() implies spec_is_digit(
            #[trigger] s.drop_last()[i],
        ) by {
            assert(s.drop_last()[i] == s[i]);
        }
        lemma_digits_value_bound(s.drop_last());
    }
}

/// Read the digit span of `text` starting at `from` as a number, or nothing
/// where the span is empty, too long, or holds a non-digit.
fn parse_digits(text: &str, from: usize) -> (r: Option<u64>)
    requires
        from <= text@.len(),
    ensures
        ({
            let s = text@.skip(from as int);
            match r {
                Some(m) => spec_integer_literal_ok(s) && m as int == spec_digits_value(s),
                None => !spec_integer_literal_ok(s),
            }
        }),
{
    let n = text.unicode_len();
    if n - from < 1 || n - from > 18 {
        return None;
    }
    let mut m: u64 = 0;
    let mut i: usize = from;
    proof {
        assert(text@.skip(from as int).take(0) =~= Seq::<char>::empty());
    }
    while i < n
        invariant
            from <= i <= n,
            n == text@.len(),
            n - from <= 18,
            spec_all_digits(text@.skip(from as int).take(i - from)),
            m as int == spec_digits_value(text@.skip(from as int).take(i - from)),
            (m as int) < pow10_spec((i - from) as nat),
        decreases n - i,
    {
        let c = text.get_char(i);
        let cv = c as u32;
        if cv < 48 || cv > 57 {
            proof {
                assert(text@.skip(from as int)[i - from] == text@[i as int]);
            }
            return None;
        }
        let d = (cv - 48) as u64;
        proof {
            lemma_pow10_pos_mono((i - from) as nat, 17);
            assert(pow10_spec(17) == 100000000000000000) by {
                reveal_with_fuel(pow10_spec, 18);
            }
        }
        m = m * 10 + d;
        proof {
            let s = text@.skip(from as int);
            assert(s.take(i - from + 1).drop_last() =~= s.take(i - from));
            assert(s.take(i - from + 1).last() == s[i - from]);
            assert(s[i - from] == text@[i as int]);
        }
        i = i + 1;
    }
    proof {
        assert(text@.skip(from as int).take(n - from) =~= text@.skip(from as int));
        lemma_digits_value_bound(text@.skip(from as int));
    }
    Some(m)
}

fn literal_error(text: &str) -> (r: CompileError)
    ensures
        r matches CompileError::TypeMismatch { name } && name@ == text@,
{
    CompileError::TypeMismatch { name: String::from_str(text) }
}

/// A spec is valid once a shape has been assigned to it; the placeholder
/// `Referenced(None)` is the one invalid state.
pub open spec fn is_valid_spec(v: TypeSpecVariant) -> bool {
    !(v matches TypeSpecVariant::Referenced(None))
}

/// The first field carrying `name`, in declared order.
pub open spec fn spec_find_field(fields: Seq<ContainerFieldSpec>, name: Seq<char>) -> Option<
    ContainerFieldSpec,
>
    decreases fields.len(),
{
    if fields.len() == 0 {
        None
    } else if fields[0].name@ == name {
        Some(fields[0])
    } else {
        spec_find_field(fields.drop_first(), name)
    }
}

/// The spec of the named child of a shape: only containers have named
/// children.
pub open spec fn spec_get_child(v: TypeSpecVariant, name: Seq<char>) -> Option<TypeSpecContainer> {
    match v {
        TypeSpecVariant::Container(c) => match spec_find_field(c.fields@, name) {
            Some(f) => Some(f.type_spec),
            None => None,
        },
        _ => None,
    }
}

/// Where a chain of `Referenced` indirections starting at index `i` lands:
/// the first non-`Referenced` spec, or nothing if the chain is broken,
/// unassigned, or longer than `fuel`.
pub open spec fn spec_follow(specs: Seq<TypeSpec>, i: int, fuel: nat) -> Option<int>
    decreases fuel,
{
    if !(0 <= i < specs.len()) {
        None
    } else {
        match specs[i].variant {
            TypeSpecVariant::Referenced(opt) => match opt {
                Some(w) => if fuel == 0 {
                    None
                } else {
                    spec_follow(specs, w.0 as int, (fuel - 1) as nat)
                },
                None => None,
            },
            _ => Some(i),
        }
    }
}

/// Whether the shape reached through any `Referenced` indirection is an
/// integer.
pub open spec fn spec_is_integer_resolved(specs: Seq<TypeSpec>, i: int) -> bool {
    match spec_follow(specs, i, specs.len() as nat) {
        Some(j) => specs[j].variant matches TypeSpecVariant::Integer(_),
        None => false,
    }
}

/// The named child of the shape reached through any `Referenced`
/// indirection.
pub open spec fn spec_child_resolved(specs: Seq<TypeSpec>, i: int, name: Seq<char>) -> Option<
    TypeSpecContainer,
> {
    match spec_follow(specs, i, specs.len() as nat) {
        Some(j) => spec_get_child(specs[j].variant, name),
        None => None,
    }
}

impl TypeSpecContainer {
    /// The state of a definition before the type-assignment pass has run.
    pub fn new_not_assigned() -> (r: Option<TypeSpecContainer>)
        ensures
            r is None,
    {
        None
    }

    pub fn downgrade(self) -> (r: WeakTypeSpecContainer)
        ensures
            r.0 == self.0,
    {
        WeakTypeSpecContainer(self.0)
    }

    /// Step through at most one `Referenced` indirection, as a single
    /// resolution step.
    pub fn follow(self, arena: &TypeSpecArena) -> (r: TypeSpecContainer)
        requires
            self.0 < arena.specs@.len(),
            arena.specs@[self.0 as int].variant matches TypeSpecVariant::Referenced(opt)
                ==> opt is Some,
        ensures
            match arena.specs@[self.0 as int].variant {
                TypeSpecVariant::Referenced(opt) => r.0 == opt->Some_0.0,
                _ => r.0 == self.0,
            },
    {
        match &arena.specs[self.0].variant {
            TypeSpecVariant::Referenced(opt) => {
                let w = opt.as_ref().unwrap();
                TypeSpecContainer(w.0)
            },
            _ => self,
        }
    }

    /// Follow `Referenced` indirection all the way to a concrete shape, with
    /// enough fuel for any chain the arena can hold.
    pub fn follow_concrete(self, arena: &TypeSpecArena) -> (r: Option<TypeSpecContainer>)
        ensures
            match r {
                Some(h) => spec_follow(arena.specs@, self.0 as int, arena.specs@.len() as nat)
                    == Some(h.0 as int),
                None => spec_follow(arena.specs@, self.0 as int, arena.specs@.len() as nat)
                    is None,
            },
    {
        self.follow_with_fuel(arena, arena.specs.len())
    }

    fn follow_with_fuel(self, arena: &TypeSpecArena, fuel: usize) -> (r: Option<TypeSpecContainer>)
        ensures
            match r {
                Some(h) => spec_follow(arena.specs@, self.0 as int, fuel as nat) == Some(
                    h.0 as int,
                ),
                None => spec_follow(arena.specs@, self.0 as int, fuel as nat) is None,
            },
        decreases fuel,
    {
        if self.0 >= arena.specs.len() {
            return None;
        }
        match &arena.specs[self.0].variant {
            TypeSpecVariant::Referenced(opt) => match opt {
                Some(w) => {
                    if fuel == 0 {
                        None
                    } else {
                        TypeSpecContainer(w.0).follow_with_fuel(arena, fuel - 1)
                    }
                },
                None => None,
            },
            _ => Some(self),
        }
    }

    /// Parse a constant written in source text against this shape,
    /// transparently following `Referenced` indirection: decimal digits
    /// against an integer shape (with a leading minus sign where the shape
    /// is signed), `true` or `false` against the boolean shape. Everything
    /// else, and every other shape, is rejected with a type mismatch.
    pub fn parse_literal(&self, arena: &TypeSpecArena, text: &str) -> (r: Result<
        TypeSpecLiteral,
        CompileError,
    >)
        ensures
            ({
                let followed = spec_follow(arena.specs@, self.0 as int, arena.specs@.len() as nat);
                match followed {
                    Some(j) => match arena.specs@[j].variant {
                        TypeSpecVariant::Integer(isp) => {
                            &&& (r matches Ok(l) ==> l matches TypeSpecLiteral::Integer { .. })
                            &&& (r matches Ok(l) ==> (l matches TypeSpecLiteral::Integer {
                                negative,
                                magnitude,
                            } ==> {
                                if negative {
                                    &&& isp.signed
                                    &&& text@.len() > 0 && text@[0] as u32 == 45
                                    &&& spec_integer_literal_ok(text@.skip(1))
                                    &&& magnitude as int == spec_digits_value(text@.skip(1))
                                } else {
                                    &&& spec_integer_literal_ok(text@)
                                    &&& magnitude as int == spec_digits_value(text@)
                                }
                            }))
                            &&& (spec_integer_literal_ok(text@) ==> (r matches Ok(l2) && l2
                                matches TypeSpecLiteral::Integer { negative: n2, magnitude: m2 }
                                && !n2 && m2 as int == spec_digits_value(text@)))
                            &&& ((isp.signed && text@.len() > 0 && text@[0] as u32 == 45
                                && spec_integer_literal_ok(text@.skip(1))) ==> (r matches Ok(l3)
                                && l3 matches TypeSpecLiteral::Integer { negative: n3, .. } && n3))
                        },
                        TypeSpecVariant::Boolean => {
                            &&& (text@ == "true"@ ==> r == Ok::<TypeSpecLiteral, CompileError>(
                                TypeSpecLiteral::Boolean(true),
                            ))
                            &&& (text@ == "false"@ ==> r == Ok::<TypeSpecLiteral, CompileError>(
                                TypeSpecLiteral::Boolean(false),
                            ))
                            &&& (r is Ok ==> (text@ == "true"@ || text@ == "false"@))
                        },
                        _ => r is Err,
                    },
                    None => r is Err,
                }
            }),
            r matches Err(e) ==> e matches CompileError::TypeMismatch { .. },
    {
        let followed = match self.follow_concrete(arena) {
            Some(h) => h,
            None => {
                return Err(literal_error(text));
            },
        };
        proof {
            lemma_follow_lands_concrete(
                arena.specs@,
                self.0 as int,
                arena.specs@.len() as nat,
                followed.0 as int,
            );
        }
        match &arena.specs[followed.0].variant {
            TypeSpecVariant::Integer(isp) => {
                let n = text.unicode_len();
                if isp.signed && n > 0 && text.get_char(0) as u32 == 45 {
                    proof {
                        assert(!spec_is_digit(text@[0]));
                    }
                    match parse_digits(text, 1) {
                        Some(m) => Ok(TypeSpecLiteral::Integer { negative: true, magnitude: m }),
                        None => Err(literal_error(text)),
                    }
                } else {
                    proof {
                        assert(text@.skip(0) =~= text@);
                    }
                    match parse_digits(text, 0) {
                        Some(m) => Ok(TypeSpecLiteral::Integer { negative: false, magnitude: m }),
                        None => Err(literal_error(text)),
                    }
                }
            },
            TypeSpecVariant::Boolean => {
                proof {
                    reveal_strlit("true");
                    reveal_strlit("false");
                }
                let t = String::from_str(text);
                if t == String::from_str("true") {
                    Ok(TypeSpecLiteral::Boolean(true))
                } else if t == String::from_str("false") {
                    Ok(TypeSpecLiteral::Boolean(false))
                } else {
                    Err(literal_error(text))
                }
            },
            _ => Err(literal_error(text)),
        }
    }

    /// Is-integer asked of a handle, transparently following `Referenced`
    /// indirection to the concrete shape.
    pub fn is_integer_resolved(self, arena: &TypeSpecArena) -> (r: bool)
        ensures
            r == spec_is_integer_resolved(arena.specs@, self.0 as int),
    {
        match self.follow_concrete(arena) {
            Some(h) => {
                proof {
                    lemma_follow_lands_concrete(
                        arena.specs@,
                        self.0 as int,
                        arena.specs@.len() as nat,
                        h.0 as int,
                    );
                }
                match &arena.specs[h.0].variant {
                    TypeSpecVariant::Integer(_) => true,
                    _ => false,
                }
            },
            None => false,
        }
    }

    /// Child lookup asked of a handle, transparently following `Referenced`
    /// indirection to the concrete shape.
    pub fn get_child_resolved(self, arena: &TypeSpecArena, name: &String) -> (r: Option<
        TypeSpecContainer,
    >)
        ensures
            r == spec_child_resolved(arena.specs@, self.0 as int, name@),
    {
        match self.follow_concrete(arena) {
            Some(h) => {
                proof {
                    lemma_follow_lands_concrete(
                        arena.specs@,
                        self.0 as int,
                        arena.specs@.len() as nat,
                        h.0 as int,
                    );
                }
                arena.specs[h.0].variant.get_child_name(name)
            },
            None => None,
        }
    }
}

impl WeakTypeSpecContainer {
    pub fn upgrade(self) -> (r: TypeSpecContainer)
        ensures
            r.0 == self.0,
    {
        TypeSpecContainer(self.0)
    }
}

impl TypeSpecArena {
    pub fn new() -> (r: TypeSpecArena)
        ensures
            r.specs@.len() == 0,
    {
        TypeSpecArena { specs: Vec::new() }
    }

    /// Append a shape, returning its handle.
    pub fn add(&mut self, variant: TypeSpecVariant) -> (r: TypeSpecContainer)
        ensures
            final(self).specs@ == old(self).specs@.push(TypeSpec { variant }),
            r.0 == old(self).specs@.len(),
    {
        let index = self.specs.len();
        self.specs.push(TypeSpec { variant });
        TypeSpecContainer(index)
    }

    pub fn get(&self, handle: TypeSpecContainer) -> (r: &TypeSpec)
        requires
            handle.0 < self.specs@.len(),
        ensures
            *r == self.specs@[handle.0 as int],
    {
        &self.specs[handle.0]
    }
}

impl TypeSpecVariant {
    /// The spec of the first field carrying `name`, for containers; no other
    /// shape has named children.
    pub fn get_child_name(&self, name: &String) -> (r: Option<TypeSpecContainer>)
        ensures
            r == spec_get_child(*self, name@),
    {
        match self {
            TypeSpecVariant::Container(container) => {
                let mut i: usize = 0;
                let fields = &container.fields;
                proof {
                    assert(fields@.skip(0) =~= fields@);
                }
                while i < fields.len()
                    invariant
                        i <= fields@.len(),
                        *self == TypeSpecVariant::Container(*container),
                        fields@ == container.fields@,
                        spec_find_field(fields@.skip(i as int), name@) == spec_find_field(
                            fields@,
                            name@,
                        ),
                        forall|j: int| 0 <= j < i as int ==> fields@[j].name@ != name@,
                    decreases fields@.len() - i,
                {
                    proof {
                        assert(fields@.skip(i as int).drop_first() =~= fields@.skip(i as int + 1));
                        assert(fields@.skip(i as int)[0] == fields@[i as int]);
                    }
                    if fields[i].name == *name {
                        proof {
                            assert(spec_find_field(fields@.skip(i as int), name@) == Some(
                                fields@[i as int],
                            ));
                        }
                        return Some(fields[i].type_spec);
                    }
                    proof {
                        assert(spec_find_field(fields@.skip(i as int), name@) == spec_find_field(
                            fields@.skip(i as int + 1),
                            name@,
                        ));
                    }
                    i = i + 1;
                }
                proof {
                    assert(fields@.skip(i as int) =~= Seq::<ContainerFieldSpec>::empty());
                }
                None
            },
            _ => None,
        }
    }

    /// A spec may be queried only once it has been assigned;
    /// `Referenced(None)` is the unassigned state.
    pub fn is_valid(&self) -> (r: bool)
        ensures
            r == is_valid_spec(*self),
    {
        match self {
            TypeSpecVariant::Referenced(opt) => match opt {
                Some(_) => true,
                None => false,
            },
            _ => true,
        }
    }

    /// Whether this shape is an integer. Asking an unassigned spec is a
    /// contract violation, so such inputs are excluded.
    pub fn is_integer(&self) -> (r: bool)
        requires
            is_valid_spec(*self),
        ensures
            r == (*self matches TypeSpecVariant::Integer(_)),
    {
        match self {
            TypeSpecVariant::Integer(_) => true,
            _ => false,
        }
    }

    /// Wrap a shape into a fresh spec in the arena.
    pub fn into_container(self, arena: &mut TypeSpecArena) -> (r: TypeSpecContainer)
        ensures
            final(arena).specs@ == old(arena).specs@.push(TypeSpec { variant: self }),
            r.0 == old(arena).specs@.len(),
    {
        arena.add(self)
    }
}

/// `Referenced` indirection is transparent: where following from `i` lands on
/// a concrete shape `j`, every structural question asked at `i` has the
/// answer it has at `j` itself.
pub proof fn lemma_referenced_transparent(specs: Seq<TypeSpec>, i: int, j: int)
    requires
        spec_follow(specs, i, specs.len() as nat) == Some(j),
    ensures
        0 <= j < specs.len(),
        !(specs[j].variant matches TypeSpecVariant::Referenced(_)),
        spec_follow(specs, j, specs.len() as nat) == Some(j),
        spec_is_integer_resolved(specs, i) == spec_is_integer_resolved(specs, j),
        spec_is_integer_resolved(specs, i) == (specs[j].variant matches TypeSpecVariant::Integer(
            _,
        )),
        forall|name: Seq<char>|
            spec_child_resolved(specs, i, name) == spec_get_child(specs[j].variant, name),
{
    lemma_follow_lands_concrete(specs, i, specs.len() as nat, j);
}

/// Whatever the fuel, a successful follow lands on a non-`Referenced` shape
/// inside the arena.
proof fn lemma_follow_lands_concrete(specs: Seq<TypeSpec>, i: int, fuel: nat, j: int)
    requires
        spec_follow(specs, i, fuel) == Some(j),
    ensures
        0 <= j < specs.len(),
        !(specs[j].variant matches TypeSpecVariant::Referenced(_)),
    decreases fuel,
{
    if 0 <= i < specs.len() {
        match specs[i].variant {
            TypeSpecVariant::Referenced(opt) => {
                if let Some(w) = opt {
                    if fuel > 0 {
                        lemma_follow_lands_concrete(specs, w.0 as int, (fuel - 1) as nat, j);
                    }
                }
            },
            _ => {},
        }
    }
}

} // verus!

