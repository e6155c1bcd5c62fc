//! The operation schema and the generation discipline: how the three
//! positionally-aligned declarations (abstract operation list, message
//! envelope cases, response envelope cases) deterministically yield the
//! service interface and the dispatch table.
//!
//! The derivation is reproducible from the schema alone: no hidden state,
//! no manual bookkeeping of positions. A structural mismatch between the
//! three declarations is a generation-time failure, never a runtime one.

use vstd::prelude::*;
use vstd::string::StringExecFns;
use crate::value::FieldType;

verus! {

/// Whether a character is an ASCII capital, the word boundary marker of a
/// PascalCase identifier.
pub open spec fn is_pascal_upper(c: char) -> bool {
    'A' <= c && c <= 'Z'
}

/// The lowercase form of an ASCII capital; other characters are kept.
pub open spec fn spec_lower(c: char) -> char {
    if is_pascal_upper(c) {
        (((c as u32) + 32) as u8) as char
    } else {
        c
    }
}

/// What one character of a PascalCase identifier contributes to its
/// snake_case form: capitals are lowercased and, except at the front,
/// preceded by an underscore.
pub open spec fn snake_char(c: char, first: bool) -> Seq<char> {
    if is_pascal_upper(c) {
        if first {
            seq![spec_lower(c)]
        } else {
            seq!['_', spec_lower(c)]
        }
    } else {
        seq![c]
    }
}

/// The snake_case form of the first `n` characters of an identifier.
pub open spec fn snake_prefix(s: Seq<char>, n: int) -> Seq<char>
    decreases n,
{
    if n <= 0 {
        Seq::empty()
    } else {
        snake_prefix(s, n - 1) + snake_char(s[n - 1], n - 1 == 0)
    }
}

/// The snake_case form of a whole identifier: the consistent lowercase
/// word-separated method name derived from an operation's name.
pub open spec fn snake_of(s: Seq<char>) -> Seq<char> {
    snake_prefix(s, s.len() as int)
}

/// Relies on String::push: it appends exactly the one given character.
#[verifier::external_body]
fn push_char(s: &mut String, c: char)
    ensures
        final(s)@ == old(s)@.push(c),
{
    s.push(c)
}

/// The snake_case method name of an operation identifier. Total over all
/// identifiers, and injective wherever the generation step's collision
/// check passes.
pub fn pascal_to_snake(name: &str) -> (r: String)
    ensures
        r@ == snake_of(name@),
{
    let n = name.unicode_len();
    let mut out = String::new();
    let mut i: usize = 0;
    while i < n
        invariant
            n == name@.len(),
            i <= n,
            out@ == snake_prefix(name@, i as int),
        decreases n - i,
    {
        let c = name.get_char(i);
        let u = c as u32;
        if 65 <= u && u <= 90 {
            if i > 0 {
                push_char(&mut out, '_');
            }
            let lc = ((u + 32) as u8) as char;
            push_char(&mut out, lc);
            proof {
                assert(out@ =~= snake_prefix(name@, i + 1));
            }
        } else {
            push_char(&mut out, c);
            proof {
                assert(out@ =~= snake_prefix(name@, i + 1));
            }
        }
        i += 1;
    }
    out
}

/// Why generation failed. These are structural contract violations of the
/// schema's three parallel declarations, caught before anything runs.
#[derive(PartialEq, Eq, Structural, Debug, Clone, Copy)]
pub enum GenError {
    /// The three declarations disagree on how many operations there are.
    CountMismatch,
    /// Two operation names map to the same method name.
    NameCollision,
    /// More operations than a one-byte case tag can route.
    TooManyOperations,
}

/// The return type of a derived method: the collapse of the operation's
/// response fields. Zero fields collapse to the unit type, exactly one to
/// that field's bare type, two or more to the ordered tuple of them.
#[derive(Debug, PartialEq)]
pub enum ReturnShape {
    Unit,
    Bare(FieldType),
    Tuple(Vec<FieldType>),
}

/// The mathematical shape of a [`ReturnShape`].
pub enum ReturnShapeView {
    Unit,
    Bare(FieldType),
    Tuple(Seq<FieldType>),
}

impl View for ReturnShape {
    type V = ReturnShapeView;

    open spec fn view(&self) -> ReturnShapeView {
        match self {
            ReturnShape::Unit => ReturnShapeView::Unit,
            ReturnShape::Bare(t) => ReturnShapeView::Bare(*t),
            ReturnShape::Tuple(ts) => ReturnShapeView::Tuple(ts@),
        }
    }
}

/// The collapse of a response field list into a method return type.
pub open spec fn collapse_spec(fields: Seq<FieldType>) -> ReturnShapeView {
    if fields.len() == 0 {
        ReturnShapeView::Unit
    } else if fields.len() == 1 {
        ReturnShapeView::Bare(fields[0])
    } else {
        ReturnShapeView::Tuple(fields)
    }
}

/// Collapses an operation's response fields into its method return type.
pub fn collapse_return(fields: Vec<FieldType>) -> (r: ReturnShape)
    ensures
        r@ == collapse_spec(fields@),
{
    if fields.len() == 0 {
        ReturnShape::Unit
    } else if fields.len() == 1 {
        ReturnShape::Bare(fields[0])
    } else {
        ReturnShape::Tuple(fields)
    }
}

/// One derived method of the service interface: its snake_case name, one
/// parameter per request field in declared order, and the collapsed return
/// type.
pub struct MethodSig {
    pub name: String,
    pub params: Vec<FieldType>,
    pub ret: ReturnShape,
}

/// The mathematical shape of a [`MethodSig`].
pub struct MethodSigView {
    pub name: Seq<char>,
    pub params: Seq<FieldType>,
    pub ret: ReturnShapeView,
}

impl View for MethodSig {
    type V = MethodSigView;

    open spec fn view(&self) -> MethodSigView {
        MethodSigView { name: self.name@, params: self.params@, ret: self.ret@ }
    }
}

/// One derived arm of the dispatch table: the case tag it matches, how
/// many fields it destructures into method arguments, and how many fields
/// the method's return value is re-wrapped into.
pub struct DispatchArm {
    pub tag: u8,
    pub request_arity: usize,
    pub response_arity: usize,
}

/// Everything generation derives from a schema: the service interface and
/// the dispatch table, one entry each per operation, in schema order.
pub struct Interface {
    pub methods: Vec<MethodSig>,
    pub arms: Vec<DispatchArm>,
}

/// The views of a list of field-type lists.
pub open spec fn field_lists_view(v: Seq<Vec<FieldType>>) -> Seq<Seq<FieldType>> {
    Seq::new(v.len(), |i: int| v[i]@)
}

/// The views of the derived methods.
pub open spec fn methods_view(v: Seq<MethodSig>) -> Seq<MethodSigView> {
    Seq::new(v.len(), |i: int| v[i]@)
}

/// No two operation names may map to the same method name: the name
/// transformation must be injective over the schema's name set.
pub open spec fn distinct_method_names(names: Seq<Seq<char>>) -> bool {
    forall|i: int, j: int|
        0 <= i < j < names.len() ==> snake_of(#[trigger] names[i]) != snake_of(#[trigger] names[j])
}

/// The most operations one schema can declare: each needs its own
/// one-byte case tag on the wire.
pub const MAX_OPERATIONS: usize = 256;

/// Derives the service interface and the dispatch table from the three
/// positionally-aligned schema declarations: the operation names, the
/// request field list of each message envelope case, and the response
/// field list of each response envelope case, zipped by position.
///
/// For a schema of N operations declared consistently, exactly N methods
/// and N dispatch arms come out, each derived from its own position alone.
/// Declarations of differing lengths, or names whose method names collide,
/// fail generation and produce nothing, as does a schema of more than 256
/// operations: each operation needs its own one-byte case tag on the
/// wire, so the codec caps what any schema can declare.
pub fn generate_interface(
    names: &Vec<String>,
    requests: Vec<Vec<FieldType>>,
    responses: Vec<Vec<FieldType>>,
) -> (r: Result<Interface, GenError>)
    ensures
        r is Ok <==> {
            &&& names@.len() == requests@.len()
            &&& names@.len() == responses@.len()
            &&& names@.len() <= MAX_OPERATIONS
            &&& distinct_method_names(Seq::new(names@.len(), |i: int| names@[i]@))
        },
        r matches Err(GenError::CountMismatch) <==> (names@.len() != requests@.len()
            || names@.len() != responses@.len()),
        r matches Ok(iface) ==> {
            let n = names@.len();
            &&& methods_view(iface.methods@).len() == n
            &&& iface.arms@.len() == n
            &&& forall|k: int|
                0 <= k < n ==> (#[trigger] methods_view(iface.methods@)[k]).name == snake_of(
                    names@[k]@,
                )
            &&& forall|k: int|
                0 <= k < n ==> (#[trigger] methods_view(iface.methods@)[k]).params == requests@[k]@
            &&& forall|k: int|
                0 <= k < n ==> (#[trigger] methods_view(iface.methods@)[k]).ret == collapse_spec(
                    responses@[k]@,
                )
            &&& forall|k: int|
                0 <= k < n ==> (#[trigger] iface.arms@[k]).tag == k as u8
                    && iface.arms@[k].request_arity == requests@[k]@.len()
                    && iface.arms@[k].response_arity == responses@[k]@.len()
        },
{
    let n = names.len();
    if requests.len() != n || responses.len() != n {
        return Err(GenError::CountMismatch);
    }
    if n > MAX_OPERATIONS {
        return Err(GenError::TooManyOperations);
    }
    let ghost name_views = Seq::new(names@.len(), |i: int| names@[i]@);

    let mut snakes: Vec<String> = Vec::new();
    let mut i: usize = 0;
    while i < n
        invariant
            n == names@.len(),
            i <= n,
            name_views == Seq::new(names@.len(), |k: int| names@[k]@),
            snakes@.len() == i,
            forall|k: int| 0 <= k < i ==> (#[trigger] snakes@[k])@ == snake_of(name_views[k]),
        decreases n - i,
    {
        let s = pascal_to_snake(names[i].as_str());
        snakes.push(s);
        i += 1;
    }

    let mut a: usize = 0;
    while a < n
        invariant
            n == names@.len(),
            n == requests@.len(),
            n == responses@.len(),
            n <= MAX_OPERATIONS,
            a <= n,
            snakes@.len() == n,
            name_views == Seq::new(names@.len(), |k: int| names@[k]@),
            forall|k: int| 0 <= k < n ==> (#[trigger] snakes@[k])@ == snake_of(name_views[k]),
            forall|i2: int, j2: int|
                0 <= i2 < j2 < n && i2 < a ==> snake_of(#[trigger] name_views[i2]) != snake_of(
                    #[trigger] name_views[j2],
                ),
        decreases n - a,
    {
        let mut b: usize = a + 1;
        while b < n
            invariant
                n == names@.len(),
                n == requests@.len(),
                n == responses@.len(),
                a < n,
                a + 1 <= b <= n,
                snakes@.len() == n,
                name_views == Seq::new(names@.len(), |k: int| names@[k]@),
                forall|k: int| 0 <= k < n ==> (#[trigger] snakes@[k])@ == snake_of(name_views[k]),
                forall|j2: int|
                    a < j2 < b ==> snake_of(name_views[a as int]) != snake_of(
                        #[trigger] name_views[j2],
                    ),
            decreases n - b,
        {
            if snakes[a].eq(&snakes[b]) {
                return Err(GenError::NameCollision);
            }
            b += 1;
        }
        a += 1;
    }

    let mut methods: Vec<MethodSig> = Vec::new();
    let mut arms: Vec<DispatchArm> = Vec::new();
    let ghost req_views = field_lists_view(requests@);
    let ghost resp_views = field_lists_view(responses@);
    let mut requests = requests;
    let mut responses = responses;
    let mut k: usize = 0;
    while k < n
        invariant
            n == names@.len(),
            k <= n,
            snakes@.len() == n,
            requests@.len() == n - k,
            responses@.len() == n - k,
            req_views.len() == n,
            resp_views.len() == n,
            forall|j: int| 0 <= j < n - k ==> (#[trigger] requests@[j])@ == req_views[k + j],
            forall|j: int| 0 <= j < n - k ==> (#[trigger] responses@[j])@ == resp_views[k + j],
            name_views == Seq::new(names@.len(), |j: int| names@[j]@),
            forall|j: int| 0 <= j < n ==> (#[trigger] snakes@[j])@ == snake_of(name_views[j]),
            n <= MAX_OPERATIONS,
            methods@.len() == k,
            arms@.len() == k,
            forall|j: int|
                0 <= j < k ==> (#[trigger] methods@[j])@.name == snake_of(name_views[j])
                    && methods@[j]@.params == req_views[j] && methods@[j]@.ret == collapse_spec(
                    resp_views[j],
                ),
            forall|j: int|
                0 <= j < k ==> (#[trigger] arms@[j]).tag == j as u8 && arms@[j].request_arity
                    == req_views[j].len() && arms@[j].response_arity == resp_views[j].len(),
        decreases n - k,
    {
        let name = snakes[k].clone();
        let params = requests.remove(0);
        let resp = responses.remove(0);
        let request_arity = params.len();
        let response_arity = resp.len();
        let ret = collapse_return(resp);
        proof {
            assert(name@ == snake_of(name_views[k as int]));
        }
        methods.push(MethodSig { name, params, ret });
        arms.push(DispatchArm { tag: k as u8, request_arity, response_arity });
        k += 1;
    }
    proof {
        assert forall|j: int| 0 <= j < n implies (#[trigger] methods_view(methods@)[j]).name
            == snake_of(names@[j]@) && methods_view(methods@)[j].params == req_views[j]
            && methods_view(methods@)[j].ret == collapse_spec(resp_views[j]) by {
            assert(methods_view(methods@)[j] == methods@[j]@);
            assert(name_views[j] == names@[j]@);
        }
    }
    Ok(Interface { methods, arms })
}

/// The example schema: the three positionally-aligned declarations of the
/// four operations served by the example plugin — "get name" (no request
/// fields, one text response field), "set rounding" (one boolean request
/// field, no response fields), "float operation" (two numeric request
/// fields, one numeric response field) and "random bytes" (one count
/// request field, one byte-sequence response field).
pub fn example_schema() -> (r: (Vec<String>, Vec<Vec<FieldType>>, Vec<Vec<FieldType>>))
    ensures
        Seq::new(r.0@.len(), |i: int| r.0@[i]@) =~~= seq![
            "GetName"@,
            "SetRounding"@,
            "FloatOp"@,
            "RandomBytes"@,
        ],
        field_lists_view(r.1@) =~~= seq![
            Seq::<FieldType>::empty(),
            seq![FieldType::Bool],
            seq![FieldType::Num, FieldType::Num],
            seq![FieldType::Num],
        ],
        field_lists_view(r.2@) =~~= seq![
            seq![FieldType::Text],
            Seq::<FieldType>::empty(),
            seq![FieldType::Num],
            seq![FieldType::Bytes],
        ],
{
    let mut names: Vec<String> = Vec::new();
    names.push(String::from_str("GetName"));
    names.push(String::from_str("SetRounding"));
    names.push(String::from_str("FloatOp"));
    names.push(String::from_str("RandomBytes"));

    let mut requests: Vec<Vec<FieldType>> = Vec::new();
    let empty_req: Vec<FieldType> = Vec::new();
    requests.push(empty_req);
    let mut set_req: Vec<FieldType> = Vec::new();
    set_req.push(FieldType::Bool);
    requests.push(set_req);
    let mut op_req: Vec<FieldType> = Vec::new();
    op_req.push(FieldType::Num);
    op_req.push(FieldType::Num);
    requests.push(op_req);
    let mut rand_req: Vec<FieldType> = Vec::new();
    rand_req.push(FieldType::Num);
    requests.push(rand_req);

    let mut responses: Vec<Vec<FieldType>> = Vec::new();
    let mut name_resp: Vec<FieldType> = Vec::new();
    name_resp.push(FieldType::Text);
    responses.push(name_resp);
    let empty_resp: Vec<FieldType> = Vec::new();
    responses.push(empty_resp);
    let mut op_resp: Vec<FieldType> = Vec::new();
    op_resp.push(FieldType::Num);
    responses.push(op_resp);
    let mut rand_resp: Vec<FieldType> = Vec::new();
    rand_resp.push(FieldType::Bytes);
    responses.push(rand_resp);

    (names, requests, responses)
}

} // verus!
