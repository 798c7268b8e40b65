//! The text that the attribute macros generate: the key of each hot function, the names of
//! the generated items, the checks on a hot function's arguments, and the reading of the
//! `#[hot_impl(..)]` arguments.
use vstd::prelude::*;

verus! {

/// The pieces joined by `sep`.
pub open spec fn join_with(parts: Seq<Seq<char>>, sep: Seq<char>) -> Seq<char>
    decreases parts.len(),
{
    if parts.len() == 0 {
        Seq::empty()
    } else if parts.len() == 1 {
        parts[0]
    } else {
        join_with(parts.drop_last(), sep) + sep + parts.last()
    }
}

/// Joins the strings with `sep` between them (as `[String]::join`).
pub fn join_strings(parts: &Vec<String>, sep: &str) -> (s: String)
    ensures s@ == join_with(parts@.map_values(|p: String| p@), sep@),
{
    let ghost v = parts@.map_values(|p: String| p@);
    let mut s = String::new();
    let n = parts.len();
    let mut i: usize = 0;
    assert(v.take(0) =~= Seq::<Seq<char>>::empty());
    while i < n
        invariant
            i <= n,
            n == parts@.len(),
            v == parts@.map_values(|p: String| p@),
            s@ == join_with(v.take(i as int), sep@),
        decreases n - i,
    {
        let ghost before = s@;
        assert(v[i as int] == parts@[i as int]@);
        assert(v.take(i + 1).drop_last() =~= v.take(i as int));
        if i > 0 {
            s.append(sep);
        } else {
            assert(v.take(1) =~= seq![v[0]]);
        }
        s.append(parts[i].as_str());
        i = i + 1;
    }
    assert(v.take(n as int) =~= v);
    s
}

fn concat(a: &str, b: &str) -> (s: String)
    ensures s@ == a@ + b@,
{
    let mut s = String::from_str(a);
    s.append(b);
    s
}

/// The signature part of a key: `::(<argument types>)-><return type>`.
pub open spec fn signature_text(arg_types: Seq<Seq<char>>, ret: Seq<char>) -> Seq<char> {
    "::("@ + join_with(arg_types, ", "@) + ")->"@ + ret
}

/// The return type as the key writes it: `()` when the function declares none.
pub open spec fn ret_text(ret: Option<Seq<char>>) -> Seq<char> {
    match ret {
        Some(r) => r,
        None => "()"@,
    }
}

fn signature(arg_types: &Vec<String>, ret: Option<&str>) -> (s: String)
    ensures
        s@ == signature_text(
            arg_types@.map_values(|p: String| p@),
            ret_text(
                match ret {
                    Some(r) => Some(r@),
                    None => None,
                },
            ),
        ),
{
    let args = join_strings(arg_types, ", ");
    let mut s = concat("::(", args.as_str());
    s.append(")->");
    match ret {
        Some(r) => s.append(r),
        None => s.append("()"),
    }
    s
}

/// The key under which `#[hot_fn]` registers a function: `<attr>::<name>::(<argument
/// types>)-><return type>`, the types as their token text.
pub fn hot_fn_key(attr: &str, name: &str, arg_types: &Vec<String>, ret: Option<&str>) -> (k: String)
    ensures
        k@ == attr@ + "::"@ + name@ + signature_text(
            arg_types@.map_values(|p: String| p@),
            ret_text(
                match ret {
                    Some(r) => Some(r@),
                    None => None,
                },
            ),
        ),
{
    let mut k = concat(attr, "::");
    k.append(name);
    let sig = signature(arg_types, ret);
    k.append(sig.as_str());
    k
}

/// The key under which `#[hot_impl]` registers a method: `<attr>::<type>::<method>::(<argument
/// types>)-><return type>`.
pub fn hot_method_key(
    attr: &str,
    self_name: &str,
    method: &str,
    arg_types: &Vec<String>,
    ret: Option<&str>,
) -> (k: String)
    ensures
        k@ == attr@ + "::"@ + self_name@ + "::"@ + method@ + signature_text(
            arg_types@.map_values(|p: String| p@),
            ret_text(
                match ret {
                    Some(r) => Some(r@),
                    None => None,
                },
            ),
        ),
{
    let mut k = concat(attr, "::");
    k.append(self_name);
    k.append("::");
    k.append(method);
    let sig = signature(arg_types, ret);
    k.append(sig.as_str());
    k
}

/// The name of the hidden copy of a hot method that holds its body: `hot_method_<name>`.
pub fn hot_method_name(method: &str) -> (n: String)
    ensures n@ == "hot_method_"@ + method@,
{
    concat("hot_method_", method)
}

/// The path of an associated function of a type: `<type path>::<name>`.
pub fn assoc_path(type_path: &str, name: &str) -> (p: String)
    ensures p@ == type_path@ + "::"@ + name@,
{
    let mut p = concat(type_path, "::");
    p.append(name);
    p
}

/// One argument of a function given to `#[hot_fn]`.
pub enum FnArg {
    /// `name: Type`.
    Named { name: String, ty: String },
    /// An argument bound by a pattern other than a plain name.
    Pattern,
    /// A `self` receiver.
    Receiver,
}

/// Why `#[hot_fn]` refuses a function.
#[derive(Debug, Clone, Copy, PartialEq, Eq, Structural)]
pub enum HotArgError {
    /// An argument is not a plain name.
    NotNamed,
    /// The function takes `self`.
    HasReceiver,
}

impl HotArgError {
    /// The message of the compile error.
    pub fn message(&self) -> (m: String)
        ensures
            m@ == (match self {
                HotArgError::NotNamed => "#[hot] currently only supports named arguments"@,
                HotArgError::HasReceiver => "#[hot] does not support methods with self yet"@,
            }),
    {
        match self {
            HotArgError::NotNamed => String::from_str("#[hot] currently only supports named arguments"),
            HotArgError::HasReceiver => String::from_str("#[hot] does not support methods with self yet"),
        }
    }
}

/// The names and the types of the arguments of a function given to `#[hot_fn]`, or the
/// error of the first argument that is not `name: Type`.
pub fn hot_fn_args(args: &Vec<FnArg>) -> (r: Result<(Vec<String>, Vec<String>), HotArgError>)
    ensures
        match r {
            Ok((names, types)) => {
                &&& forall|i: int| 0 <= i < args@.len() ==> #[trigger] args@[i] is Named
                &&& names@.len() == args@.len()
                &&& types@.len() == args@.len()
                &&& forall|i: int|
                    0 <= i < args@.len() ==> names@[i]@ == (#[trigger] args@[i])->name@
                        && types@[i]@ == args@[i]->ty@
            },
            Err(e) => exists|i: int|
                0 <= i < args@.len() && !(#[trigger] args@[i] is Named) && (forall|j: int|
                    0 <= j < i ==> #[trigger] args@[j] is Named) && e == (if args@[i] is Pattern {
                    HotArgError::NotNamed
                } else {
                    HotArgError::HasReceiver
                }),
        },
{
    let mut names: Vec<String> = Vec::new();
    let mut types: Vec<String> = Vec::new();
    let n = args.len();
    let mut i: usize = 0;
    while i < n
        invariant
            i <= n,
            n == args@.len(),
            names@.len() == i,
            types@.len() == i,
            forall|j: int| 0 <= j < i ==> #[trigger] args@[j] is Named,
            forall|j: int|
                0 <= j < i ==> names@[j]@ == (#[trigger] args@[j])->name@ && types@[j]@
                    == args@[j]->ty@,
        decreases n - i,
    {
        match &args[i] {
            FnArg::Named { name, ty } => {
                names.push(name.clone());
                types.push(ty.clone());
            },
            FnArg::Pattern => {
                return Err(HotArgError::NotNamed);
            },
            FnArg::Receiver => {
                return Err(HotArgError::HasReceiver);
            },
        }
        i = i + 1;
    }
    Ok((names, types))
}

/// One argument of a method given to `#[hot_method]`.
pub enum MethodArg {
    /// `pattern: Type`, as token text.
    Typed { pat: String, ty: String },
    /// A `self` receiver: by reference or by value, mutable or not.
    Receiver { reference: bool, mutable: bool },
}

/// The type that stands for a receiver in the generated function type.
pub open spec fn receiver_type(reference: bool, mutable: bool) -> Seq<char> {
    if reference {
        if mutable {
            "& mut Self"@
        } else {
            "& Self"@
        }
    } else {
        "Self"@
    }
}

/// The argument types of a method as the generated function type lists them: each typed
/// argument's type in order, a receiver's type put in front.
pub open spec fn method_types(args: Seq<MethodArg>) -> Seq<Seq<char>>
    decreases args.len(),
{
    if args.len() == 0 {
        Seq::empty()
    } else {
        match args.last() {
            MethodArg::Typed { pat, ty } => method_types(args.drop_last()).push(ty@),
            MethodArg::Receiver { reference, mutable } => seq![receiver_type(reference, mutable)]
                + method_types(args.drop_last()),
        }
    }
}

/// The argument names of a method as the generated call passes them: each typed
/// argument's pattern, `self` for a receiver, in order.
pub open spec fn method_names(args: Seq<MethodArg>) -> Seq<Seq<char>>
    decreases args.len(),
{
    if args.len() == 0 {
        Seq::empty()
    } else {
        method_names(args.drop_last()).push(
            match args.last() {
                MethodArg::Typed { pat, ty } => pat@,
                MethodArg::Receiver { .. } => "self"@,
            },
        )
    }
}

/// A method's arguments as Rust writes them: a receiver, if any, only first.
pub open spec fn receiver_first(args: Seq<MethodArg>) -> bool {
    forall|k: int| 0 < k < args.len() ==> (#[trigger] args[k]) is Typed
}

/// The type and the name of an argument in the generated signature: a typed argument's
/// type and pattern, a receiver's `Self` type and `self`.
pub open spec fn arg_in_place(arg: MethodArg, ty: Seq<char>, name: Seq<char>) -> bool {
    match arg {
        MethodArg::Typed { pat, ty: t } => ty == t@ && name == pat@,
        MethodArg::Receiver { reference, mutable } => ty == receiver_type(reference, mutable)
            && name == "self"@,
    }
}

/// Each argument keeps its place: the `k`-th type and the `k`-th name of the generated
/// signature are those of the `k`-th argument, for a receiver as for a typed argument.
pub proof fn lemma_method_signature_in_place(args: Seq<MethodArg>)
    requires receiver_first(args),
    ensures
        method_types(args).len() == args.len(),
        method_names(args).len() == args.len(),
        forall|k: int|
            0 <= k < args.len() ==> arg_in_place(
                #[trigger] args[k],
                method_types(args)[k],
                method_names(args)[k],
            ),
    decreases args.len(),
{
    if args.len() > 0 {
        let q = args.drop_last();
        assert(receiver_first(q)) by {
            assert forall|k: int| 0 < k < q.len() implies (#[trigger] q[k]) is Typed by {
                assert(q[k] == args[k]);
            }
        }
        lemma_method_signature_in_place(q);
        let n = args.len() - 1;
        assert forall|k: int| 0 <= k < args.len() implies arg_in_place(
            #[trigger] args[k],
            method_types(args)[k],
            method_names(args)[k],
        ) by {
            if k < n {
                assert(args[k] == q[k]);
                assert(arg_in_place(q[k], method_types(q)[k], method_names(q)[k]));
                if args.last() is Receiver {
                    assert(n == 0);
                }
            }
        }
    }
}

/// The argument types and names of a hot method (see `method_types`, `method_names`).
pub fn method_signature(args: &Vec<MethodArg>) -> (r: (Vec<String>, Vec<String>))
    ensures
        r.0@.map_values(|p: String| p@) == method_types(args@),
        r.1@.map_values(|p: String| p@) == method_names(args@),
        receiver_first(args@) ==> r.0@.len() == args@.len() && r.1@.len() == args@.len()
            && forall|k: int|
            0 <= k < args@.len() ==> arg_in_place(#[trigger] args@[k], r.0@[k]@, r.1@[k]@),
{
    let mut types: Vec<String> = Vec::new();
    let mut names: Vec<String> = Vec::new();
    let n = args.len();
    let mut i: usize = 0;
    assert(args@.take(0) =~= Seq::<MethodArg>::empty());
    assert(types@.map_values(|p: String| p@) =~= Seq::<Seq<char>>::empty());
    assert(names@.map_values(|p: String| p@) =~= Seq::<Seq<char>>::empty());
    while i < n
        invariant
            i <= n,
            n == args@.len(),
            types@.map_values(|p: String| p@) == method_types(args@.take(i as int)),
            names@.map_values(|p: String| p@) == method_names(args@.take(i as int)),
        decreases n - i,
    {
        let ghost tv = types@.map_values(|p: String| p@);
        let ghost nv = names@.map_values(|p: String| p@);
        assert(args@.take(i + 1).drop_last() =~= args@.take(i as int));
        assert(args@.take(i + 1).last() == args@[i as int]);
        match &args[i] {
            MethodArg::Typed { pat, ty } => {
                let ghost (pv, tyv) = (pat@, ty@);
                types.push(ty.clone());
                names.push(pat.clone());
                assert(types@.map_values(|p: String| p@) =~= tv.push(tyv));
                assert(names@.map_values(|p: String| p@) =~= nv.push(pv));
            },
            MethodArg::Receiver { reference, mutable } => {
                proof {
                    reveal_strlit("& mut Self");
                    reveal_strlit("& Self");
                    reveal_strlit("Self");
                    reveal_strlit("self");
                }
                let t = if *reference {
                    if *mutable {
                        String::from_str("& mut Self")
                    } else {
                        String::from_str("& Self")
                    }
                } else {
                    String::from_str("Self")
                };
                let ghost tyv = t@;
                types.insert(0, t);
                names.push(String::from_str("self"));
                assert(types@.map_values(|p: String| p@) =~= seq![tyv] + tv);
                assert(names@.map_values(|p: String| p@) =~= nv.push("self"@));
            },
        }
        i = i + 1;
    }
    assert(args@.take(n as int) =~= args@);
    proof {
        if receiver_first(args@) {
            lemma_method_signature_in_place(args@);
            let tv = types@.map_values(|p: String| p@);
            let nv = names@.map_values(|p: String| p@);
            assert forall|k: int| 0 <= k < args@.len() implies arg_in_place(
                #[trigger] args@[k],
                types@[k]@,
                names@[k]@,
            ) by {
                assert(tv[k] == types@[k]@);
                assert(nv[k] == names@[k]@);
            }
        }
    }
    (types, names)
}

/// The attribute is the bare name `hot_method`.
pub open spec fn names_hot_method(name: Option<String>) -> bool {
    name matches Some(n) && n@ == "hot_method"@
}

/// Whether a method is marked hot: one of its attributes is the bare name `hot_method`
/// (each attribute is given by its path when that is a single name, else `None`).
pub fn is_hot_method(attr_names: &Vec<Option<String>>) -> (b: bool)
    ensures
        b == exists|i: int| 0 <= i < attr_names@.len() && names_hot_method(#[trigger] attr_names@[i]),
{
    proof {
        reveal_strlit("hot_method");
    }
    let marker = String::from_str("hot_method");
    let n = attr_names.len();
    let mut i: usize = 0;
    while i < n
        invariant
            i <= n,
            n == attr_names@.len(),
            marker@ == "hot_method"@,
            forall|k: int| 0 <= k < i ==> !names_hot_method(#[trigger] attr_names@[k]),
        decreases n - i,
    {
        match &attr_names[i] {
            Some(name) => {
                if name.eq(&marker) {
                    assert(names_hot_method(attr_names@[i as int]));
                    return true;
                }
            },
            None => {},
        }
        i = i + 1;
    }
    false
}

/// The build gate that `#[hot_check]` puts in place of a `dev` or `prod` attribute.
#[derive(Debug, Clone, Copy, PartialEq, Eq, Structural)]
pub enum CfgGate {
    /// Compiled only in hot builds (the `prod` feature off).
    NotProd,
    /// Compiled only in prod builds (the `prod` feature on).
    Prod,
}

/// The build gate for an attribute name: hot builds for `dev`, prod builds for `prod`, and
/// none for any other name.
pub fn cfg_gate(name: &str) -> (g: Option<CfgGate>)
    ensures
        g == (if name@ == "dev"@ {
            Some(CfgGate::NotProd)
        } else if name@ == "prod"@ {
            Some(CfgGate::Prod)
        } else {
            None
        }),
{
    let s = String::from_str(name);
    if s.eq(&String::from_str("dev")) {
        Some(CfgGate::NotProd)
    } else if s.eq(&String::from_str("prod")) {
        Some(CfgGate::Prod)
    } else {
        None
    }
}

/// The kind of a token of the arguments of `#[hot_impl(..)]`.
#[derive(Debug, Clone, Copy, PartialEq, Eq, Structural)]
pub enum TokenKind {
    Ident,
    Punct(char),
    Literal,
    Group,
}

/// A token of the arguments of `#[hot_impl(..)]`: its kind and its text.
pub struct AttrToken {
    pub kind: TokenKind,
    pub text: String,
}

impl AttrToken {
    pub open spec fn text(self) -> Seq<char> {
        self.text@
    }

    /// How the token changes the depth of angle brackets.
    pub open spec fn depth_step(self) -> int {
        match self.kind {
            TokenKind::Punct(c) => if c == '<' {
                1
            } else if c == '>' {
                -1
            } else {
                0
            },
            _ => 0,
        }
    }

    /// The token is punctuation other than `=`.
    pub open spec fn is_other_punct(self) -> bool {
        self.kind matches TokenKind::Punct(c) && c != '='
    }

    /// The token is the identifier `name`.
    pub open spec fn is_ident(self, name: Seq<char>) -> bool {
        self.kind is Ident && self.text@ == name
    }
}

/// The position just after the token where the angle-bracket depth, counted from `depth`
/// at `k`, comes back to zero; `None` when the tokens end first.
pub open spec fn generic_end(toks: Seq<AttrToken>, k: int, depth: int) -> Option<int>
    decreases toks.len() - k,
{
    if k < 0 || k >= toks.len() {
        None
    } else if depth + toks[k].depth_step() == 0 {
        Some(k + 1)
    } else {
        generic_end(toks, k + 1, depth + toks[k].depth_step())
    }
}

/// The texts of the tokens from `a` to `b`.
pub open spec fn token_texts(toks: Seq<AttrToken>, a: int, b: int) -> Seq<Seq<char>> {
    toks.subrange(a, b).map_values(|t: AttrToken| t.text())
}

/// Reading the arguments of `#[hot_impl(..)]` from token `i` on, with the prefix and the
/// generic arguments read so far: `prefix = "<literal>"` sets the prefix to the literal's
/// text, `generic = <T..>` sets the generic arguments to the text of the tokens up to the
/// matching `>` joined by spaces; other tokens are skipped, and the reading stops where
/// the tokens run out.
pub open spec fn read_attr(toks: Seq<AttrToken>, i: int, prefix: Seq<char>, generic: Seq<char>) -> (
    Seq<char>,
    Seq<char>,
)
    decreases toks.len() - i, 2int,
{
    if i < 0 || i >= toks.len() {
        (prefix, generic)
    } else if toks[i].is_ident("prefix"@) {
        read_prefix(toks, i + 1, prefix, generic)
    } else if toks[i].is_ident("generic"@) {
        read_generic(toks, i + 1, prefix, generic)
    } else {
        read_attr(toks, i + 1, prefix, generic)
    }
}

/// After `prefix`: an `=` (or a token that is not punctuation) and then a literal.
pub open spec fn read_prefix(toks: Seq<AttrToken>, i: int, prefix: Seq<char>, generic: Seq<char>) -> (
    Seq<char>,
    Seq<char>,
)
    decreases toks.len() - i, 1int,
{
    if i < 0 || i >= toks.len() {
        (prefix, generic)
    } else if toks[i].is_other_punct() {
        read_attr(toks, i + 1, prefix, generic)
    } else if i + 1 >= toks.len() {
        (prefix, generic)
    } else if toks[i + 1].kind is Literal {
        read_attr(toks, i + 2, toks[i + 1].text(), generic)
    } else {
        read_attr(toks, i + 2, prefix, generic)
    }
}

/// After `generic`: an `=` (or a token that is not punctuation) and then the generic
/// arguments, up to where the angle brackets balance.
pub open spec fn read_generic(toks: Seq<AttrToken>, i: int, prefix: Seq<char>, generic: Seq<char>) -> (
    Seq<char>,
    Seq<char>,
)
    decreases toks.len() - i, 1int,
{
    if i < 0 || i >= toks.len() {
        (prefix, generic)
    } else if toks[i].is_other_punct() {
        read_attr(toks, i + 1, prefix, generic)
    } else {
        match generic_end(toks, i + 1, 0) {
            None => (prefix, generic),
            Some(j) => {
                let text = join_with(token_texts(toks, i + 1, j), " "@);
                if j > i + 1 && j <= toks.len() {
                    read_attr(toks, j, prefix, if text.len() > 0 { text } else { generic })
                } else {
                    (prefix, generic)
                }
            },
        }
    }
}


proof fn lemma_generic_end_range(toks: Seq<AttrToken>, k: int, depth: int)
    requires 0 <= k,
    ensures generic_end(toks, k, depth) matches Some(j) ==> k < j <= toks.len(),
    decreases toks.len() - k,
{
    if k < toks.len() && depth + toks[k].depth_step() != 0 {
        lemma_generic_end_range(toks, k + 1, depth + toks[k].depth_step());
    }
}

proof fn lemma_attr_independent(
    toks: Seq<AttrToken>,
    i: int,
    p1: Seq<char>,
    p2: Seq<char>,
    g1: Seq<char>,
    g2: Seq<char>,
)
    ensures
        read_attr(toks, i, p1, g1).1 == read_attr(toks, i, p2, g1).1,
        read_attr(toks, i, p1, g1).0 == read_attr(toks, i, p1, g2).0,
    decreases toks.len() - i, 2int,
{
    if i < 0 || i >= toks.len() {
    } else if toks[i].is_ident("prefix"@) {
        lemma_prefix_independent(toks, i + 1, p1, p2, g1, g2);
    } else if toks[i].is_ident("generic"@) {
        lemma_generic_independent(toks, i + 1, p1, p2, g1, g2);
    } else {
        lemma_attr_independent(toks, i + 1, p1, p2, g1, g2);
    }
}

proof fn lemma_prefix_independent(
    toks: Seq<AttrToken>,
    i: int,
    p1: Seq<char>,
    p2: Seq<char>,
    g1: Seq<char>,
    g2: Seq<char>,
)
    ensures
        read_prefix(toks, i, p1, g1).1 == read_prefix(toks, i, p2, g1).1,
        read_prefix(toks, i, p1, g1).0 == read_prefix(toks, i, p1, g2).0,
    decreases toks.len() - i, 1int,
{
    if i < 0 || i >= toks.len() {
    } else if toks[i].is_other_punct() {
        lemma_attr_independent(toks, i + 1, p1, p2, g1, g2);
    } else if i + 1 >= toks.len() {
    } else if toks[i + 1].kind is Literal {
        lemma_attr_independent(toks, i + 2, toks[i + 1].text(), toks[i + 1].text(), g1, g2);
    } else {
        lemma_attr_independent(toks, i + 2, p1, p2, g1, g2);
    }
}

proof fn lemma_generic_independent(
    toks: Seq<AttrToken>,
    i: int,
    p1: Seq<char>,
    p2: Seq<char>,
    g1: Seq<char>,
    g2: Seq<char>,
)
    ensures
        read_generic(toks, i, p1, g1).1 == read_generic(toks, i, p2, g1).1,
        read_generic(toks, i, p1, g1).0 == read_generic(toks, i, p1, g2).0,
    decreases toks.len() - i, 1int,
{
    if i < 0 || i >= toks.len() {
    } else if toks[i].is_other_punct() {
        lemma_attr_independent(toks, i + 1, p1, p2, g1, g2);
    } else {
        match generic_end(toks, i + 1, 0) {
            None => {},
            Some(j) => {
                let text = join_with(token_texts(toks, i + 1, j), " "@);
                if j > i + 1 && j <= toks.len() {
                    let n1 = if text.len() > 0 { text } else { g1 };
                    let n2 = if text.len() > 0 { text } else { g2 };
                    lemma_attr_independent(toks, j, p1, p2, n1, n2);
                }
            },
        }
    }
}

/// A `prefix = "<literal>"` clause sets the prefix to the literal and leaves the generic
/// arguments as they were: what is read from it on is what is read after it with that
/// prefix, and the generic arguments come out as if the clause were not there.
pub proof fn lemma_prefix_clause_keeps_generic(
    toks: Seq<AttrToken>,
    i: int,
    prefix: Seq<char>,
    generic: Seq<char>,
)
    requires
        0 <= i,
        i + 2 < toks.len(),
        toks[i].is_ident("prefix"@),
        toks[i + 1].kind == TokenKind::Punct('='),
        toks[i + 2].kind is Literal,
    ensures
        read_attr(toks, i, prefix, generic) == read_attr(toks, i + 3, toks[i + 2].text(), generic),
        read_attr(toks, i, prefix, generic).1 == read_attr(toks, i + 3, prefix, generic).1,
{
    assert(!toks[i + 1].is_other_punct());
    assert(read_attr(toks, i, prefix, generic) == read_prefix(toks, i + 1, prefix, generic));
    assert(read_prefix(toks, i + 1, prefix, generic) == read_attr(
        toks,
        i + 3,
        toks[i + 2].text(),
        generic,
    ));
    lemma_attr_independent(toks, i + 3, toks[i + 2].text(), prefix, generic, generic);
}

/// A `generic = <..>` clause sets the generic arguments to the text of its tokens up to the
/// matching `>` (when that text is not empty) and leaves the prefix as it was: the prefix
/// comes out as if the clause were not there.
pub proof fn lemma_generic_clause_keeps_prefix(
    toks: Seq<AttrToken>,
    i: int,
    j: int,
    prefix: Seq<char>,
    generic: Seq<char>,
)
    requires
        0 <= i,
        i + 1 < toks.len(),
        toks[i].is_ident("generic"@),
        toks[i + 1].kind == TokenKind::Punct('='),
        generic_end(toks, i + 2, 0) == Some(j),
    ensures
        i + 2 < j <= toks.len(),
        read_attr(toks, i, prefix, generic) == read_attr(
            toks,
            j,
            prefix,
            if join_with(token_texts(toks, i + 2, j), " "@).len() > 0 {
                join_with(token_texts(toks, i + 2, j), " "@)
            } else {
                generic
            },
        ),
        read_attr(toks, i, prefix, generic).0 == read_attr(toks, j, prefix, generic).0,
{
    lemma_generic_end_range(toks, i + 2, 0);
    assert(!toks[i].is_ident("prefix"@)) by {
        reveal_strlit("prefix");
        reveal_strlit("generic");
        assert("prefix"@.len() != "generic"@.len());
    }
    assert(!toks[i + 1].is_other_punct());
    let text = join_with(token_texts(toks, i + 2, j), " "@);
    let n = if text.len() > 0 { text } else { generic };
    assert(read_attr(toks, i, prefix, generic) == read_generic(toks, i + 1, prefix, generic));
    assert(read_generic(toks, i + 1, prefix, generic) == read_attr(toks, j, prefix, n));
    lemma_attr_independent(toks, j, prefix, prefix, n, generic);
}

fn is_ident(t: &AttrToken, name: &str) -> (b: bool)
    ensures b == t.is_ident(name@),
{
    match t.kind {
        TokenKind::Ident => t.text.eq(&String::from_str(name)),
        _ => false,
    }
}

fn is_other_punct(t: &AttrToken) -> (b: bool)
    ensures b == t.is_other_punct(),
{
    match t.kind {
        TokenKind::Punct(c) => c != '=',
        _ => false,
    }
}

fn depth_step(t: &AttrToken) -> (d: i128)
    ensures d == t.depth_step(),
{
    match t.kind {
        TokenKind::Punct(c) => if c == '<' {
            1
        } else if c == '>' {
            -1
        } else {
            0
        },
        _ => 0,
    }
}

/// Reads the arguments of `#[hot_impl(..)]`: the prefix (empty unless given) and the
/// generic arguments (`<>` unless given), as `read_attr` says.
pub fn read_impl_attr(toks: &Vec<AttrToken>) -> (r: (String, String))
    ensures (r.0@, r.1@) == read_attr(toks@, 0, Seq::empty(), "<>"@),
{
    let n = toks.len();
    let mut prefix = String::new();
    let mut generic = String::from_str("<>");
    let ghost goal = read_attr(toks@, 0, Seq::empty(), "<>"@);
    let mut i: usize = 0;
    while i < n
        invariant
            i <= n,
            n == toks@.len(),
            goal == read_attr(toks@, 0, Seq::empty(), "<>"@),
            goal == read_attr(toks@, i as int, prefix@, generic@),
        decreases n - i,
    {
        if is_ident(&toks[i], "prefix") {
            let k = i + 1;
            assert(read_attr(toks@, i as int, prefix@, generic@) == read_prefix(
                toks@,
                k as int,
                prefix@,
                generic@,
            ));
            if k >= n {
                return (prefix, generic);
            }
            if is_other_punct(&toks[k]) {
                i = k + 1;
            } else {
                if k + 1 >= n {
                    return (prefix, generic);
                }
                match toks[k + 1].kind {
                    TokenKind::Literal => {
                        prefix = toks[k + 1].text.clone();
                    },
                    _ => {},
                }
                i = k + 2;
            }
        } else if is_ident(&toks[i], "generic") {
            let k = i + 1;
            assert(read_attr(toks@, i as int, prefix@, generic@) == read_generic(
                toks@,
                k as int,
                prefix@,
                generic@,
            ));
            if k >= n {
                return (prefix, generic);
            }
            if is_other_punct(&toks[k]) {
                i = k + 1;
            } else {
                let mut parts: Vec<String> = Vec::new();
                let mut j: usize = k + 1;
                let mut depth: i128 = 0;
                let mut done = false;
                assert(parts@.map_values(|p: String| p@) =~= token_texts(toks@, k + 1, k + 1));
                while !done && j < n
                    invariant
                        k + 1 <= j <= n,
                        n == toks@.len(),
                        -(j as int) <= depth <= j,
                        !done ==> generic_end(toks@, k + 1, 0) == generic_end(
                            toks@,
                            j as int,
                            depth as int,
                        ),
                        done ==> generic_end(toks@, k + 1, 0) == Some(j as int),
                        parts@.map_values(|p: String| p@) == token_texts(toks@, k + 1, j as int),
                    decreases n - j,
                {
                    let ghost before = parts@.map_values(|p: String| p@);
                    depth = depth + depth_step(&toks[j]);
                    let ghost tv = toks[j as int].text@;
                    parts.push(toks[j].text.clone());
                    assert(parts@.map_values(|p: String| p@) =~= before.push(tv));
                    assert(token_texts(toks@, k + 1, j + 1) =~= token_texts(
                        toks@,
                        k + 1,
                        j as int,
                    ).push(tv));
                    j = j + 1;
                    if depth == 0 {
                        done = true;
                    }
                }
                if !done {
                    return (prefix, generic);
                }
                proof {
                    lemma_generic_end_range(toks@, k + 1, 0);
                }
                let text = join_strings(&parts, " ");
                if text.unicode_len() > 0 {
                    generic = text;
                }
                i = j;
            }
        } else {
            i = i + 1;
        }
    }
    (prefix, generic)
}

} // verus!
