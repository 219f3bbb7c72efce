//! Canonical, format-agnostic model of the host API: functions, arguments,
//! return descriptors, types and fixed-key ("keyset") records, together
//! with the name canonicalization used for externally visible identifiers.

use vstd::prelude::*;

verus! {

// ---------------------------------------------------------------------------
// Mathematical views of the model types.
// ---------------------------------------------------------------------------
/// View of an API type.
pub enum TypeV {
    Boolean,
    Integer,
    Float,
    String,
    Array(Option<Box<TypeV>>),
    Dictionary(Option<Box<TypeV>>),
    Keyset(KeysetV),
    LuaRef,
    Buffer,
    Window,
    Tabpage,
    Object,
}

/// View of a keyset: its name and the ordered names of its fields.  Every
/// field of a keyset holds the fully dynamic object type, so the field
/// names alone describe it.
pub struct KeysetV {
    pub name: Seq<char>,
    pub fields: Seq<Seq<char>>,
}

/// View of a declared function argument.
pub struct ArgV {
    pub name: Seq<char>,
    pub type_: TypeV,
}

/// View of a function's argument list and implicit call-shape flags.
pub struct FuncArgsV {
    pub args: Seq<ArgV>,
    pub has_channel_id: bool,
    pub has_arena: bool,
}

/// View of a function's return descriptor.
pub struct FuncReturnV {
    pub type_: Option<TypeV>,
    pub has_error: bool,
}

/// View of a function's attribute set.
pub struct FuncAttrsV {
    pub since: Option<int>,
    pub fast: bool,
    pub remote_only: bool,
    pub check_text_lock: bool,
}

/// View of an API function.
pub struct FuncV {
    pub name: Seq<char>,
    pub args: FuncArgsV,
    pub return_: FuncReturnV,
    pub attrs: FuncAttrsV,
}

// ---------------------------------------------------------------------------
// The model types.
// ---------------------------------------------------------------------------
/// Represents an API function.
#[derive(Debug, PartialEq)]
pub struct ApiFunc {
    /// The declared function name, before canonicalization.
    pub name: String,
    /// Arguments of the function.
    pub args: ApiFuncArgs,
    /// The return value.
    pub return_: ApiFuncReturn,
    /// Extra attributes of the function.
    pub attrs: ApiFuncAttrs,
}

/// Represents the function's arguments.
#[derive(Debug, PartialEq)]
pub struct ApiFuncArgs {
    /// The declared arguments.
    pub args: Vec<ApiArg>,
    /// If true, a caller-identity channel id is passed as an implicit first
    /// argument when calling the native function; it is never part of the
    /// declared signature.
    pub has_channel_id: bool,
    /// If true, a scratch arena is passed as an implicit argument after all
    /// declared arguments; a returned composite value lives in that region.
    pub has_arena: bool,
}

/// Represents a single function argument.
#[derive(Debug, PartialEq)]
pub struct ApiArg {
    /// The declared argument name, before canonicalization.
    pub name: String,
    /// The type of the argument.
    pub type_: ApiType,
}

/// Represents the function's return value.
#[derive(Debug, PartialEq)]
pub struct ApiFuncReturn {
    /// The return type; `None` when the native function returns void.
    pub type_: Option<ApiType>,
    /// Whether the function can signal an error.  If true, an error-out
    /// struct is passed as the last argument when calling the native
    /// function.
    pub has_error: bool,
}

/// Represents all possible API types.
#[derive(Debug, PartialEq)]
pub enum ApiType {
    Boolean,
    Integer,
    Float,
    String,
    Array(ApiArrayType),
    Dictionary(ApiDictionaryType),
    Keyset(ApiKeyset),
    LuaRef,
    Buffer,
    Window,
    Tabpage,
    Object,
}

/// Represents an array type.
#[derive(Debug, PartialEq)]
pub struct ApiArrayType {
    /// The element type hint.  Advisory only: storage is always a generic
    /// ordered sequence of objects.  `None` when the array is opaque.
    pub inner_type: Option<Box<ApiType>>,
}

/// Represents a dictionary type.
#[derive(Debug, PartialEq)]
pub struct ApiDictionaryType {
    /// The value type hint.  Advisory only, as for arrays.
    pub inner_type: Option<Box<ApiType>>,
}

/// Represents an API keyset: a dictionary with fixed keys, every field
/// holding the fully dynamic object type.
#[derive(Debug, PartialEq)]
pub struct ApiKeyset {
    /// The declared type name of the keyset, before canonicalization.
    pub name: String,
    /// The fields of the keyset.
    pub fields: Vec<ApiField>,
}

/// Represents a field in a keyset.
#[derive(Debug, PartialEq)]
pub struct ApiField {
    /// The declared name of the field, before canonicalization.
    pub name: String,
}

/// Represents the extra attributes of a function.
#[derive(Debug, PartialEq)]
pub struct ApiFuncAttrs {
    /// API level where the function was introduced.
    pub since: Option<ApiVersion>,
    /// True for a fast-path function.
    pub fast: bool,
    /// True for a remote-only function.
    pub remote_only: bool,
    /// True when the function is not allowed while the text lock is active.
    pub check_text_lock: bool,
}

/// Represents an API level.
#[derive(Debug, PartialEq)]
pub struct ApiVersion {
    pub version: i32,
}

/// The attribute set before any attribute is parsed.
pub open spec fn spec_default_attrs() -> FuncAttrsV {
    FuncAttrsV { since: Option::None, fast: false, remote_only: false, check_text_lock: false }
}

impl Default for ApiFuncAttrs {
    /// No attributes set.
    fn default() -> (r: ApiFuncAttrs)
        ensures
            r@ == spec_default_attrs(),
    {
        ApiFuncAttrs { since: Option::None, fast: false, remote_only: false, check_text_lock: false }
    }
}

// ---------------------------------------------------------------------------
// Views.
// ---------------------------------------------------------------------------
pub open spec fn type_view(t: ApiType) -> TypeV
    decreases t,
{
    match t {
        ApiType::Boolean => TypeV::Boolean,
        ApiType::Integer => TypeV::Integer,
        ApiType::Float => TypeV::Float,
        ApiType::String => TypeV::String,
        ApiType::Array(a) => TypeV::Array(
            match a.inner_type {
                Option::None => Option::None,
                Option::Some(b) => Option::Some(Box::new(type_view(*b))),
            },
        ),
        ApiType::Dictionary(d) => TypeV::Dictionary(
            match d.inner_type {
                Option::None => Option::None,
                Option::Some(b) => Option::Some(Box::new(type_view(*b))),
            },
        ),
        ApiType::Keyset(k) => TypeV::Keyset(k@),
        ApiType::LuaRef => TypeV::LuaRef,
        ApiType::Buffer => TypeV::Buffer,
        ApiType::Window => TypeV::Window,
        ApiType::Tabpage => TypeV::Tabpage,
        ApiType::Object => TypeV::Object,
    }
}

impl View for ApiType {
    type V = TypeV;

    open spec fn view(&self) -> TypeV {
        type_view(*self)
    }
}

impl DeepView for ApiType {
    type V = TypeV;

    open spec fn deep_view(&self) -> TypeV {
        type_view(*self)
    }
}

impl View for ApiField {
    type V = Seq<char>;

    open spec fn view(&self) -> Seq<char> {
        self.name@
    }
}

impl DeepView for ApiField {
    type V = Seq<char>;

    open spec fn deep_view(&self) -> Seq<char> {
        self.name@
    }
}

impl View for ApiKeyset {
    type V = KeysetV;

    open spec fn view(&self) -> KeysetV {
        KeysetV { name: self.name@, fields: self.fields.deep_view() }
    }
}

impl DeepView for ApiKeyset {
    type V = KeysetV;

    open spec fn deep_view(&self) -> KeysetV {
        self@
    }
}

impl View for ApiArg {
    type V = ArgV;

    open spec fn view(&self) -> ArgV {
        ArgV { name: self.name@, type_: self.type_@ }
    }
}

impl DeepView for ApiArg {
    type V = ArgV;

    open spec fn deep_view(&self) -> ArgV {
        self@
    }
}

impl View for ApiFuncArgs {
    type V = FuncArgsV;

    open spec fn view(&self) -> FuncArgsV {
        FuncArgsV {
            args: self.args.deep_view(),
            has_channel_id: self.has_channel_id,
            has_arena: self.has_arena,
        }
    }
}

impl View for ApiFuncReturn {
    type V = FuncReturnV;

    open spec fn view(&self) -> FuncReturnV {
        FuncReturnV {
            type_: match self.type_ {
                Option::None => Option::None,
                Option::Some(t) => Option::Some(t@),
            },
            has_error: self.has_error,
        }
    }
}

impl View for ApiFuncAttrs {
    type V = FuncAttrsV;

    open spec fn view(&self) -> FuncAttrsV {
        FuncAttrsV {
            since: match self.since {
                Option::None => Option::None,
                Option::Some(v) => Option::Some(v.version as int),
            },
            fast: self.fast,
            remote_only: self.remote_only,
            check_text_lock: self.check_text_lock,
        }
    }
}

impl View for ApiFunc {
    type V = FuncV;

    open spec fn view(&self) -> FuncV {
        FuncV { name: self.name@, args: self.args@, return_: self.return_@, attrs: self.attrs@ }
    }
}

impl DeepView for ApiFunc {
    type V = FuncV;

    open spec fn deep_view(&self) -> FuncV {
        self@
    }
}

impl Clone for ApiField {
    fn clone(&self) -> (r: ApiField)
        ensures
            r@ == self@,
    {
        ApiField { name: self.name.clone() }
    }
}

impl Clone for ApiKeyset {
    fn clone(&self) -> (r: ApiKeyset)
        ensures
            r@ == self@,
    {
        let mut fields: Vec<ApiField> = Vec::new();
        let mut i: usize = 0;
        while i < self.fields.len()
            invariant
                i <= self.fields.len(),
                fields.deep_view() =~= self.fields.deep_view().take(i as int),
            decreases self.fields.len() - i,
        {
            let ghost old_dv = fields.deep_view();
            let f = self.fields[i].clone();
            fields.push(f);
            proof {
                assert(fields.deep_view() =~= old_dv.push(f.deep_view()));
                assert(self.fields.deep_view()[i as int] == self.fields[i as int].deep_view());
                assert(fields.deep_view() =~= self.fields.deep_view().take(i + 1));
            }
            i = i + 1;
        }
        proof {
            assert(self.fields.deep_view().take(self.fields.len() as int) =~= self.fields.deep_view());
        }
        ApiKeyset { name: self.name.clone(), fields }
    }
}

// ---------------------------------------------------------------------------
// Name canonicalization.
// ---------------------------------------------------------------------------
/// A character that separates name segments: underscores are treated
/// exactly as hyphens.
pub open spec fn is_sep_char(c: char) -> bool {
    c == '-' || c == '_'
}

/// Length of the maximal non-separator run at the head of `s`.
pub open spec fn word_run(s: Seq<char>) -> int
    decreases s.len(),
{
    if s.len() == 0 || is_sep_char(s[0]) {
        0
    } else {
        1 + word_run(s.drop_first())
    }
}

pub proof fn lemma_word_run_bounds(s: Seq<char>)
    ensures
        0 <= word_run(s) <= s.len(),
    decreases s.len(),
{
    if s.len() > 0 && !is_sep_char(s[0]) {
        lemma_word_run_bounds(s.drop_first());
    }
}

pub proof fn lemma_word_run_value(s: Seq<char>, k: int)
    requires
        0 <= k <= s.len(),
        forall|t: int| 0 <= t < k ==> !is_sep_char(#[trigger] s[t]),
        k == s.len() || is_sep_char(s[k]),
    ensures
        word_run(s) == k,
    decreases k,
{
    if k > 0 {
        assert forall|t: int| 0 <= t < k - 1 implies !is_sep_char(#[trigger] s.drop_first()[t]) by {
            assert(s.drop_first()[t] == s[t + 1]);
        }
        if k - 1 < s.drop_first().len() {
            assert(s.drop_first()[k - 1] == s[k]);
        }
        lemma_word_run_value(s.drop_first(), k - 1);
    }
}

/// The non-empty segments of a name, split on hyphens and underscores.
pub open spec fn wit_segments(s: Seq<char>) -> Seq<Seq<char>>
    decreases s.len(),
    via wit_segments_decreases
{
    if s.len() == 0 {
        Seq::empty()
    } else if is_sep_char(s[0]) {
        wit_segments(s.drop_first())
    } else {
        seq![s.take(word_run(s))] + wit_segments(s.skip(word_run(s)))
    }
}

#[via_fn]
proof fn wit_segments_decreases(s: Seq<char>) {
    if s.len() > 0 && !is_sep_char(s[0]) {
        lemma_word_run_bounds(s.drop_first());
    }
}

/// Segments re-joined with single hyphens.
pub open spec fn join_hyphen(segs: Seq<Seq<char>>) -> Seq<char>
    decreases segs.len(),
{
    if segs.len() == 0 {
        Seq::empty()
    } else if segs.len() == 1 {
        segs[0]
    } else {
        segs[0] + seq!['-'] + join_hyphen(segs.drop_first())
    }
}

/// The canonical externally visible form of a name: every underscore
/// becomes a hyphen, empty segments are dropped, and the non-empty segments
/// are re-joined with hyphens.
pub open spec fn wit_normalize(s: Seq<char>) -> Seq<char> {
    join_hyphen(wit_segments(s))
}

proof fn lemma_join_hyphen_push(segs: Seq<Seq<char>>, x: Seq<char>)
    ensures
        join_hyphen(segs.push(x)) == if segs.len() == 0 {
            x
        } else {
            join_hyphen(segs) + seq!['-'] + x
        },
    decreases segs.len(),
{
    if segs.len() == 0 {
        assert(segs.push(x)[0] == x);
        assert(join_hyphen(segs.push(x)) == x);
    } else if segs.len() == 1 {
        assert(segs.push(x)[0] == segs[0]);
        assert(segs.push(x).drop_first() =~= segs.drop_first().push(x));
        lemma_join_hyphen_push(segs.drop_first(), x);
        assert(join_hyphen(segs.drop_first().push(x)) == x);
        assert(join_hyphen(segs.push(x)) == segs[0] + seq!['-'] + x);
        assert(join_hyphen(segs) == segs[0]);
    } else {
        assert(segs.push(x)[0] == segs[0]);
        assert(segs.push(x).drop_first() =~= segs.drop_first().push(x));
        lemma_join_hyphen_push(segs.drop_first(), x);
        assert(join_hyphen(segs.push(x)) == segs[0] + seq!['-'] + (join_hyphen(segs.drop_first())
            + seq!['-'] + x));
        assert(segs[0] + seq!['-'] + (join_hyphen(segs.drop_first()) + seq!['-'] + x) =~= (segs[0]
            + seq!['-'] + join_hyphen(segs.drop_first())) + seq!['-'] + x);
    }
}

fn is_sep(c: char) -> (b: bool)
    ensures
        b == is_sep_char(c),
{
    c == '-' || c == '_'
}

/// Splits a name into its non-empty segments.
fn split_words(s: &str) -> (segs: Vec<String>)
    ensures
        segs.deep_view() == wit_segments(s@),
{
    let len = s.unicode_len();
    let mut segs: Vec<String> = Vec::new();
    let mut i: usize = 0;
    proof {
        assert(s@.skip(0) =~= s@);
        assert(segs.deep_view() + wit_segments(s@) =~= wit_segments(s@));
    }
    while i < len
        invariant
            i <= len,
            len == s@.len(),
            segs.deep_view() + wit_segments(s@.skip(i as int)) == wit_segments(s@),
        decreases len - i,
    {
        let ghost rest = s@.skip(i as int);
        assert(rest[0] == s@[i as int]);
        let c = s.get_char(i);
        if is_sep(c) {
            proof {
                assert(rest.drop_first() =~= s@.skip(i + 1));
            }
            i = i + 1;
        } else {
            let mut j: usize = i + 1;
            while j < len && !is_sep(s.get_char(j))
                invariant
                    i < j <= len,
                    len == s@.len(),
                    forall|t: int| i <= t < j ==> !is_sep_char(#[trigger] s@[t]),
                decreases len - j,
            {
                j = j + 1;
            }
            proof {
                assert forall|t: int| 0 <= t < j - i implies !is_sep_char(#[trigger] rest[t]) by {
                    assert(rest[t] == s@[i + t]);
                }
                if (j as int) < len as int {
                    assert(rest[j - i] == s@[j as int]);
                }
                lemma_word_run_value(rest, j - i);
            }
            let seg = s.substring_char(i, j);
            let seg = String::from_str(seg);
            proof {
                assert(seg@ =~= rest.take(j - i));
                assert(rest.skip(j - i) =~= s@.skip(j as int));
            }
            let ghost old_dv = segs.deep_view();
            segs.push(seg);
            proof {
                assert(segs.deep_view() =~= old_dv.push(seg@));
                assert(old_dv.push(seg@) + wit_segments(s@.skip(j as int)) =~= old_dv
                    + wit_segments(s@.skip(i as int)));
            }
            i = j;
        }
    }
    proof {
        assert(s@.skip(len as int) =~= Seq::<char>::empty());
        assert(segs.deep_view() + wit_segments(s@.skip(len as int)) =~= segs.deep_view());
    }
    segs
}

/// Returns the canonical externally visible ("WIT") form of an identifier:
/// underscores become hyphens, empty segments are dropped, and the
/// remaining segments are re-joined with hyphens.
pub fn normalized_wit_identifier(s: &str) -> (r: String)
    ensures
        r@ == wit_normalize(s@),
{
    let segs = split_words(s);
    let mut out = String::new();
    let mut k: usize = 0;
    proof {
        assert(segs.deep_view().take(0) =~= Seq::<Seq<char>>::empty());
    }
    while k < segs.len()
        invariant
            k <= segs.len(),
            segs.deep_view() == wit_segments(s@),
            out@ == join_hyphen(segs.deep_view().take(k as int)),
        decreases segs.len() - k,
    {
        let ghost pre = segs.deep_view().take(k as int);
        if k > 0 {
            out.append("-");
        }
        out.append(segs[k].as_str());
        proof {
            assert(segs.deep_view().take(k + 1) =~= pre.push(segs.deep_view()[k as int]));
            lemma_join_hyphen_push(pre, segs.deep_view()[k as int]);
            if k == 0 {
                assert(out@ =~= segs.deep_view()[0]);
            } else {
                assert(out@ =~= join_hyphen(pre) + seq!['-'] + segs.deep_view()[k as int]) by {
                    assert("-"@ =~= seq!['-']) by {
                        reveal_strlit("-");
                    }
                }
            }
        }
        k = k + 1;
    }
    proof {
        assert(segs.deep_view().take(segs.len() as int) =~= segs.deep_view());
    }
    out
}

impl ApiFunc {
    /// Returns the normalized WIT name of the function.
    pub fn wit_name(&self) -> (r: String)
        ensures
            r@ == wit_normalize(self@.name),
    {
        normalized_wit_identifier(self.name.as_str())
    }
}

impl ApiArg {
    /// Returns the normalized WIT name of the argument.
    pub fn wit_name(&self) -> (r: String)
        ensures
            r@ == wit_normalize(self@.name),
    {
        normalized_wit_identifier(self.name.as_str())
    }
}

impl ApiKeyset {
    /// Returns the normalized WIT type name of the keyset, which carries a
    /// fixed `keyset-` prefix before the declared name.
    pub fn wit_name(&self) -> (r: String)
        ensures
            r@ == wit_normalize("keyset-"@ + self@.name),
    {
        let mut prefixed = String::from_str("keyset-");
        prefixed.append(self.name.as_str());
        normalized_wit_identifier(prefixed.as_str())
    }
}

impl ApiField {
    /// Returns the normalized WIT name of the field.
    pub fn wit_name(&self) -> (r: String)
        ensures
            r@ == wit_normalize(self@),
    {
        normalized_wit_identifier(self.name.as_str())
    }
}

} // verus!
