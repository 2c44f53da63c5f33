//! Java declarations for the JNI functions that a project's Rust source exports.
//!
//! The source is scanned as text. A function is recognised by its mangled
//! name, `Java_<package>_<Class>_<method>`; its last underscore separates the
//! method from the class, so a method's name may not hold one.
use crate::num::{decimal, push_decimal};
use crate::path::{HostOs, extension_of, find_extension};
use crate::text::{
    chars_of, clone_pairs, clone_strings, contains_in_middle, contains_in_part, contains_text,
    find_char, find_char_from, find_char_props, find_text, find_text_from, find_text_props,
    has_string, is_white_space, no_white_space, occurs_at, pair_views, replace_char, replaced,
    replaced_one_for_one, rsplit_once, same, split_first, split_last, split_last_of_joined,
    split_once, strip_prefix, text_of, trim, trim_left_char, trim_start_char, trimmed, views,
    white_space,
};
use vstd::prelude::*;

verus! {

/// One exported function.
#[derive(Debug)]
pub struct JniFunction {
    pub class_name: String,
    pub method_name: String,
    pub java_return: String,
    /// Java type and name of each parameter.
    pub java_params: Vec<(String, String)>,
    pub source_file: String,
    /// Rust types of parameters that have no Java counterpart and were taken
    /// for `Object`.
    pub unrecognized_types: Vec<String>,
}

/// The texts of an exported function.
pub struct JniFunctionView {
    pub class_name: Seq<char>,
    pub method_name: Seq<char>,
    pub java_return: Seq<char>,
    pub java_params: Seq<(Seq<char>, Seq<char>)>,
    pub source_file: Seq<char>,
    pub unrecognized_types: Seq<Seq<char>>,
}

impl View for JniFunction {
    type V = JniFunctionView;

    open spec fn view(&self) -> JniFunctionView {
        JniFunctionView {
            class_name: self.class_name@,
            method_name: self.method_name@,
            java_return: self.java_return@,
            java_params: pair_views(self.java_params@),
            source_file: self.source_file@,
            unrecognized_types: views(self.unrecognized_types@),
        }
    }
}

impl Clone for JniFunction {
    fn clone(&self) -> (r: Self)
        ensures
            r@ == self@,
    {
        JniFunction {
            class_name: self.class_name.clone(),
            method_name: self.method_name.clone(),
            java_return: self.java_return.clone(),
            java_params: clone_pairs(&self.java_params),
            source_file: self.source_file.clone(),
            unrecognized_types: clone_strings(&self.unrecognized_types),
        }
    }
}

/// The texts of a list of exported functions.
pub open spec fn function_views(v: Seq<JniFunction>) -> Seq<JniFunctionView> {
    v.map_values(|f: JniFunction| f@)
}

// ---------------------------------------------------------------------------
// Types

/// Whether a Rust type is one of JNI's own object types.
pub open spec fn known_object(t: Seq<char>) -> bool {
    t == "jstring"@ || t == "jobject"@ || t == "jclass"@ || t == "jthrowable"@ || t
        == "jbyteArray"@ || t == "jintArray"@ || t == "jfloatArray"@ || t == "jdoubleArray"@ || t
        == "jlongArray"@ || t == "jbooleanArray"@ || t == "jobjectArray"@
}

/// Whether a Rust type is one of JNI's own object types.
pub fn is_known_object_type(t: &str) -> (r: bool)
    ensures
        r == known_object(t@),
{
    same(t, "jstring") || same(t, "jobject") || same(t, "jclass") || same(t, "jthrowable") || same(
        t,
        "jbyteArray",
    ) || same(t, "jintArray") || same(t, "jfloatArray") || same(t, "jdoubleArray") || same(
        t,
        "jlongArray",
    ) || same(t, "jbooleanArray") || same(t, "jobjectArray")
}

/// The Java type for a Rust type; `Object` where there is no better one.
pub open spec fn java_type(t: Seq<char>) -> Seq<char> {
    if t == "jint"@ || t == "i32"@ {
        "int"@
    } else if t == "jlong"@ || t == "i64"@ {
        "long"@
    } else if t == "jshort"@ || t == "i16"@ {
        "short"@
    } else if t == "jbyte"@ || t == "i8"@ {
        "byte"@
    } else if t == "jchar"@ || t == "u16"@ {
        "char"@
    } else if t == "jfloat"@ || t == "f32"@ {
        "float"@
    } else if t == "jdouble"@ || t == "f64"@ {
        "double"@
    } else if t == "jboolean"@ || t == "bool"@ {
        "boolean"@
    } else if t == "jstring"@ {
        "String"@
    } else if t == "jbyteArray"@ {
        "byte[]"@
    } else if t == "jintArray"@ {
        "int[]"@
    } else if t == "jfloatArray"@ {
        "float[]"@
    } else if t == "jdoubleArray"@ {
        "double[]"@
    } else if t == "jlongArray"@ {
        "long[]"@
    } else if t == "jbooleanArray"@ {
        "boolean[]"@
    } else if t == "jobjectArray"@ {
        "Object[]"@
    } else if t == "()"@ {
        "void"@
    } else {
        "Object"@
    }
}

/// The Java type for a Rust type.
pub fn map_rust_type_to_java(t: &str) -> (r: &'static str)
    ensures
        r@ == java_type(t@),
{
    if same(t, "jint") || same(t, "i32") {
        "int"
    } else if same(t, "jlong") || same(t, "i64") {
        "long"
    } else if same(t, "jshort") || same(t, "i16") {
        "short"
    } else if same(t, "jbyte") || same(t, "i8") {
        "byte"
    } else if same(t, "jchar") || same(t, "u16") {
        "char"
    } else if same(t, "jfloat") || same(t, "f32") {
        "float"
    } else if same(t, "jdouble") || same(t, "f64") {
        "double"
    } else if same(t, "jboolean") || same(t, "bool") {
        "boolean"
    } else if same(t, "jstring") {
        "String"
    } else if same(t, "jbyteArray") {
        "byte[]"
    } else if same(t, "jintArray") {
        "int[]"
    } else if same(t, "jfloatArray") {
        "float[]"
    } else if same(t, "jdoubleArray") {
        "double[]"
    } else if same(t, "jlongArray") {
        "long[]"
    } else if same(t, "jbooleanArray") {
        "boolean[]"
    } else if same(t, "jobjectArray") {
        "Object[]"
    } else if same(t, "()") {
        "void"
    } else {
        "Object"
    }
}

// ---------------------------------------------------------------------------
// Brackets

/// How a character changes the nesting of round brackets.
pub open spec fn paren_step(c: char) -> int {
    if c == '(' {
        1
    } else if c == ')' {
        -1
    } else {
        0
    }
}

/// Opening minus closing round brackets in `s` from `from` up to `to`.
pub open spec fn paren_balance(s: Seq<char>, from: int, to: int) -> int
    decreases to - from,
{
    if to <= from || from < 0 || to > s.len() {
        0
    } else {
        paren_balance(s, from, to - 1) + paren_step(s[to - 1])
    }
}

/// The first position at or after `i` where a bracket closes and the balance,
/// which is `depth` before `i`, becomes zero.
pub open spec fn closing_from(s: Seq<char>, i: int, depth: int) -> Option<int>
    decreases s.len() - i,
{
    if i < 0 || i >= s.len() {
        None
    } else if s[i] == ')' && depth == 1 {
        Some(i)
    } else {
        closing_from(s, i + 1, depth + paren_step(s[i]))
    }
}

/// What `closing_from` finds: the first closing bracket at which the balance is zero.
pub proof fn closing_from_props(s: Seq<char>, open: int, i: int)
    requires
        0 <= open <= i <= s.len(),
    ensures
        match closing_from(s, i, paren_balance(s, open, i)) {
            Some(k) => i <= k < s.len() && s[k] == ')' && paren_balance(s, open, k + 1) == 0 && (
            forall|j: int|
                i <= j < k && s[j] == ')' ==> #[trigger] paren_balance(s, open, j + 1) != 0),
            None => forall|j: int|
                i <= j < s.len() && s[j] == ')' ==> #[trigger] paren_balance(s, open, j + 1) != 0,
        },
    decreases s.len() - i,
{
    if i < s.len() {
        assert(paren_balance(s, open, i + 1) == paren_balance(s, open, i) + paren_step(s[i]));
        if !(s[i] == ')' && paren_balance(s, open, i) == 1) {
            closing_from_props(s, open, i + 1);
        }
    }
}

/// The position of the bracket that closes the one at `open_idx`.
pub fn find_matching_paren(v: &Vec<char>, open_idx: usize) -> (r: Option<usize>)
    requires
        open_idx <= v.len(),
    ensures
        match r {
            Some(k) => closing_from(v@, open_idx as int, 0) == Some(k as int) && open_idx <= k
                < v.len(),
            None => closing_from(v@, open_idx as int, 0) is None,
        },
{
    let mut depth: i128 = 0;
    let mut i: usize = open_idx;
    while i < v.len()
        invariant
            open_idx <= i <= v.len(),
            open_idx - i <= depth <= i - open_idx,
            closing_from(v@, open_idx as int, 0) == closing_from(v@, i as int, depth as int),
        decreases v.len() - i,
    {
        if v[i] == '(' {
            depth += 1;
        } else if v[i] == ')' {
            depth -= 1;
            if depth == 0 {
                return Some(i);
            }
        }
        i += 1;
    }
    None
}

/// How a character changes the nesting of brackets of any kind.
pub open spec fn bracket_step(c: char) -> int {
    if c == '<' || c == '(' || c == '[' {
        1
    } else if c == '>' || c == ')' || c == ']' {
        -1
    } else {
        0
    }
}

/// A part of a list, trimmed; nothing where it is blank.
pub open spec fn part(s: Seq<char>) -> Seq<Seq<char>> {
    if trimmed(s).len() > 0 {
        seq![trimmed(s)]
    } else {
        seq![]
    }
}

/// The parts of `s` from `start` on that commas outside brackets separate, of
/// which the text up to `i` has been looked at, where `depth` brackets are open.
pub open spec fn parts_from(s: Seq<char>, start: int, i: int, depth: int) -> Seq<Seq<char>>
    decreases s.len() - i,
{
    if i < 0 || i >= s.len() {
        part(s.skip(start))
    } else if s[i] == ',' && depth == 0 {
        part(s.subrange(start, i)) + parts_from(s, i + 1, i + 1, 0)
    } else {
        parts_from(s, start, i + 1, depth + bracket_step(s[i]))
    }
}

/// The parts of `s` that commas outside brackets separate, trimmed, without
/// the blank ones.
pub open spec fn top_level_parts(s: Seq<char>) -> Seq<Seq<char>> {
    parts_from(s, 0, 0, 0)
}

fn push_part(out: &mut Vec<String>, v: &Vec<char>, start: usize, end: usize)
    requires
        start <= end <= v.len(),
    ensures
        views(final(out)@) == views(old(out)@) + part(v@.subrange(start as int, end as int)),
{
    let ghost before = out@;
    let t = trim(&text_of(v, start, end));
    if t.unicode_len() > 0 {
        out.push(t);
        assert(views(out@) =~= views(before) + seq![t@]);
    } else {
        assert(views(out@) =~= views(before) + seq![]);
    }
}

/// Splits at the commas outside brackets.
pub fn split_top_level_commas(s: &str) -> (r: Vec<String>)
    ensures
        views(r@) == top_level_parts(s@),
{
    let v = chars_of(s);
    let mut out: Vec<String> = Vec::new();
    let mut start: usize = 0;
    let mut depth: i128 = 0;
    assert(views(out@) =~= seq![]);
    assert(views(out@) + parts_from(s@, 0, 0, 0) =~= top_level_parts(s@));
    let mut i: usize = 0;
    while i < v.len()
        invariant
            v@ == s@,
            start <= i <= v.len(),
            -i <= depth <= i,
            views(out@) + parts_from(s@, start as int, i as int, depth as int) == top_level_parts(
                s@,
            ),
        decreases v.len() - i,
    {
        let c = v[i];
        if c == ',' && depth == 0 {
            let ghost before = out@;
            push_part(&mut out, &v, start, i);
            proof {
                assert(views(out@) + parts_from(s@, i + 1, i + 1, 0) =~= views(before) + parts_from(
                    s@,
                    start as int,
                    i as int,
                    0,
                ));
            }
            start = i + 1;
        } else if c == '<' || c == '(' || c == '[' {
            depth += 1;
        } else if c == '>' || c == ')' || c == ']' {
            depth -= 1;
        }
        i += 1;
    }
    assert(s@.skip(start as int) =~= v@.subrange(start as int, v@.len() as int));
    push_part(&mut out, &v, start, v.len());
    out
}

// ---------------------------------------------------------------------------
// Signatures

/// Where the name at the beginning of `s`, read up to `i`, ends: before an
/// opening bracket or white space.
pub open spec fn name_end_from(s: Seq<char>, i: int) -> int
    decreases s.len() - i,
{
    if i < 0 || i >= s.len() {
        s.len() as int
    } else if s[i] == '(' || white_space(s[i]) {
        i
    } else {
        name_end_from(s, i + 1)
    }
}

fn find_name_end(v: &Vec<char>) -> (r: usize)
    ensures
        r == name_end_from(v@, 0),
        r <= v.len(),
{
    let mut i: usize = 0;
    while i < v.len() && !(v[i] == '(' || is_white_space(v[i]))
        invariant
            i <= v.len(),
            name_end_from(v@, 0) == name_end_from(v@, i as int),
        decreases v.len() - i,
    {
        i += 1;
    }
    i
}

/// Class and method that a name stands for: what follows the package prefix,
/// split at its last underscore; neither may be empty.
pub open spec fn class_and_method(name: Seq<char>, prefix: Seq<char>) -> Option<
    (Seq<char>, Seq<char>),
> {
    if !prefix.is_prefix_of(name) {
        None
    } else {
        match split_last(name.skip(prefix.len() as int), '_') {
            Some((class, method)) => if class.len() > 0 && method.len() > 0 {
                Some((class, method))
            } else {
                None
            },
            None => None,
        }
    }
}

fn find_class_and_method(name: &str, prefix: &str) -> (r: Option<(String, String)>)
    ensures
        match r {
            Some((c, m)) => class_and_method(name@, prefix@) == Some((c@, m@)),
            None => class_and_method(name@, prefix@) is None,
        },
{
    match strip_prefix(name, prefix) {
        Some(mangled) => {
            proof {
                assert(name@.skip(prefix@.len() as int) =~= mangled@);
                assert(prefix@.is_prefix_of(name@)) by {
                    assert(name@.subrange(0, prefix@.len() as int) =~= prefix@);
                }
            }
            match rsplit_once(&mangled, '_') {
                Some((class, method)) => {
                    if class.unicode_len() > 0 && method.unicode_len() > 0 {
                        Some((class, method))
                    } else {
                        None
                    }
                },
                None => None,
            }
        },
        None => None,
    }
}

/// What stands between the first two arrows, or after the only one.
pub open spec fn after_arrow(tail: Seq<char>) -> Option<Seq<char>> {
    match find_text(tail, "->"@, 0) {
        Some(k) => {
            let rest = tail.skip(k + 2);
            match find_text(rest, "->"@, 0) {
                Some(j) => Some(rest.take(j)),
                None => Some(rest),
            }
        },
        None => None,
    }
}

/// The Java return type of a signature whose text between the parameters and
/// the body is `tail`.
pub open spec fn java_return_of(tail: Seq<char>) -> Seq<char> {
    match after_arrow(tail) {
        Some(t) => java_type(trimmed(t)),
        None => "void"@,
    }
}

fn java_return(tail: &str) -> (r: String)
    ensures
        r@ == java_return_of(tail@),
{
    let v = chars_of(tail);
    let arrow = chars_of("->");
    proof {
        reveal_strlit("->");
        assert("->"@.len() == 2);
    }
    match find_text_from(&v, &arrow, 0) {
        Some(k) => {
            let rest = text_of(&v, k + 2, v.len());
            assert(rest@ =~= tail@.skip(k + 2));
            let w = chars_of(&rest);
            let ty = match find_text_from(&w, &arrow, 0) {
                Some(j) => text_of(&w, 0, j),
                None => rest,
            };
            map_rust_type_to_java(&trim(&ty)).to_owned()
        },
        None => "void".to_owned(),
    }
}

/// The name that Java gives the parameter at position `i`: its Rust name
/// without leading underscores, or `arg<i>` where nothing is left.
pub open spec fn java_name(i: nat, rust_name: Seq<char>) -> Seq<char> {
    let name = trim_left_char(trimmed(rust_name), '_');
    if name.len() == 0 {
        "arg"@ + decimal(i)
    } else {
        name
    }
}

/// The Java types and names of the first `n` parameters; one without a type is
/// left out.
pub open spec fn java_params_of(params: Seq<Seq<char>>, n: nat) -> Seq<(Seq<char>, Seq<char>)>
    decreases n,
{
    if n == 0 || n > params.len() {
        seq![]
    } else {
        let before = java_params_of(params, (n - 1) as nat);
        match split_first(params[n - 1], ':') {
            Some((name, ty)) => before.push(
                (java_type(trimmed(ty)), java_name((n - 1) as nat, name)),
            ),
            None => before,
        }
    }
}

/// The Rust types among the first `n` parameters that Java has no counterpart for.
pub open spec fn unrecognized_of(params: Seq<Seq<char>>, n: nat) -> Seq<Seq<char>>
    decreases n,
{
    if n == 0 || n > params.len() {
        seq![]
    } else {
        let before = unrecognized_of(params, (n - 1) as nat);
        match split_first(params[n - 1], ':') {
            Some((_, ty)) => if java_type(trimmed(ty)) == "Object"@ && !known_object(trimmed(ty)) {
                before.push(trimmed(ty))
            } else {
                before
            },
            None => before,
        }
    }
}

/// The parameters that Java sees: all but the environment and the class or object.
pub open spec fn user_params(all: Seq<Seq<char>>) -> Seq<Seq<char>> {
    if all.len() <= 2 {
        seq![]
    } else {
        all.skip(2)
    }
}

/// Java types and names of a parameter list, and the types without counterpart.
fn java_params(params_text: &str) -> (r: (Vec<(String, String)>, Vec<String>))
    ensures
        ({
            let user = user_params(top_level_parts(params_text@));
            &&& pair_views(r.0@) == java_params_of(user, user.len())
            &&& views(r.1@) == unrecognized_of(user, user.len())
        }),
{
    let all = split_top_level_commas(params_text);
    let mut params: Vec<(String, String)> = Vec::new();
    let mut unrecognized: Vec<String> = Vec::new();
    let ghost user = user_params(views(all@));
    assert(pair_views(params@) =~= seq![]);
    assert(views(unrecognized@) =~= seq![]);
    let mut i: usize = 2;
    while i < all.len()
        invariant
            i >= 2,
            user == user_params(views(all@)),
            i <= all.len() || all.len() <= 2 && i == 2,
            pair_views(params@) == java_params_of(user, (i - 2) as nat),
            views(unrecognized@) == unrecognized_of(user, (i - 2) as nat),
        decreases all.len() - i,
    {
        assert(user[i - 2] == all@[i as int]@);
        match split_once(&all[i], ':') {
            Some((rust_name, rust_ty)) => {
                let bare = trim_start_char(&trim(&rust_name), '_');
                let name = if bare.unicode_len() == 0 {
                    let mut n = "arg".to_owned();
                    push_decimal(&mut n, (i - 2) as u64);
                    n
                } else {
                    bare
                };
                let ty = trim(&rust_ty);
                let java_ty = map_rust_type_to_java(&ty);
                if same(java_ty, "Object") && !is_known_object_type(&ty) {
                    let ghost before = unrecognized@;
                    unrecognized.push(ty);
                    assert(views(unrecognized@) =~= views(before).push(ty@));
                }
                let ghost before = params@;
                let pair = (java_ty.to_owned(), name);
                params.push(pair);
                assert(pair_views(params@) =~= pair_views(before).push((pair.0@, pair.1@)));
            },
            None => {},
        }
        i += 1;
    }
    (params, unrecognized)
}

/// The exported function whose name stands at the beginning of `rest`, if it
/// belongs to the package and has a complete parameter list.
pub open spec fn function_at(
    rest: Seq<char>,
    prefix: Seq<char>,
    source_file: Seq<char>,
) -> Option<JniFunctionView> {
    let open = find_char(rest, '(', 0);
    match (class_and_method(rest.take(name_end_from(rest, 0)), prefix), closing_from(rest, open, 0)) {
        (Some((class_name, method_name)), Some(close)) => if open < rest.len() {
            let after = rest.skip(close + 1);
            let user = user_params(top_level_parts(rest.subrange(open + 1, close)));
            Some(
                JniFunctionView {
                    class_name,
                    method_name,
                    java_return: java_return_of(after.take(find_char(after, '{', 0))),
                    java_params: java_params_of(user, user.len()),
                    source_file,
                    unrecognized_types: unrecognized_of(user, user.len()),
                },
            )
        } else {
            None
        },
        _ => None,
    }
}

fn read_function(rest: &str, prefix: &str, source_file: &str) -> (r: Option<JniFunction>)
    ensures
        match r {
            Some(f) => function_at(rest@, prefix@, source_file@) == Some(f@),
            None => function_at(rest@, prefix@, source_file@) is None,
        },
{
    let v = chars_of(rest);
    let name_end = find_name_end(&v);
    let name = text_of(&v, 0, name_end);
    let (class_name, method_name) = match find_class_and_method(&name, prefix) {
        Some(x) => x,
        None => {
            return None;
        },
    };
    let open = find_char_from(&v, '(', 0);
    if open == v.len() {
        return None;
    }
    let close = match find_matching_paren(&v, open) {
        Some(x) => x,
        None => {
            return None;
        },
    };
    proof {
        find_char_props(v@, '(', 0);
        assert(v@[open as int] == '(');
        closing_from_props(v@, open as int, open as int);
        assert(close > open);
    }
    let params_text = text_of(&v, open + 1, close);
    let after = text_of(&v, close + 1, v.len());
    assert(after@ =~= rest@.skip(close + 1));
    let w = chars_of(&after);
    let body = find_char_from(&w, '{', 0);
    let tail = text_of(&w, 0, body);
    let (java_params, unrecognized_types) = java_params(&params_text);
    Some(
        JniFunction {
            class_name,
            method_name,
            java_return: java_return(&tail),
            java_params,
            source_file: source_file.to_owned(),
            unrecognized_types,
        },
    )
}

/// The exported functions in `text` from `from` on, in order.
pub open spec fn functions_from(
    text: Seq<char>,
    prefix: Seq<char>,
    source_file: Seq<char>,
    from: int,
) -> Seq<JniFunctionView>
    decreases text.len() - from,
    when 0 <= from <= text.len()
    via functions_from_decreases
{
    match find_text(text, "fn Java_"@, from) {
        Some(k) => (match function_at(text.skip(k + 3), prefix, source_file) {
            Some(f) => seq![f],
            None => seq![],
        }) + functions_from(text, prefix, source_file, k + 4),
        None => seq![],
    }
}

#[via_fn]
proof fn functions_from_decreases(
    text: Seq<char>,
    prefix: Seq<char>,
    source_file: Seq<char>,
    from: int,
) {
    find_text_props(text, "fn Java_"@, from);
    reveal_strlit("fn Java_");
    assert("fn Java_"@.len() == 8);
}

/// The exported functions in a source text whose names begin with the prefix.
pub fn scan_source(text: &str, prefix: &str, source_file: &str) -> (r: Vec<JniFunction>)
    ensures
        function_views(r@) == functions_from(text@, prefix@, source_file@, 0),
{
    let v = chars_of(text);
    let marker = chars_of("fn Java_");
    proof {
        reveal_strlit("fn Java_");
        assert(marker@.len() == 8);
    }
    let mut out: Vec<JniFunction> = Vec::new();
    assert(function_views(out@) =~= seq![]);
    let mut from: usize = 0;
    assert(function_views(out@) + functions_from(text@, prefix@, source_file@, 0)
        =~= functions_from(text@, prefix@, source_file@, 0));
    loop
        invariant
            v@ == text@,
            from <= v.len(),
            marker@ == "fn Java_"@,
            marker@.len() == 8,
            function_views(out@) + functions_from(text@, prefix@, source_file@, from as int)
                == functions_from(text@, prefix@, source_file@, 0),
        decreases v.len() - from,
    {
        let k = match find_text_from(&v, &marker, from) {
            Some(k) => k,
            None => {
                assert(function_views(out@) =~= functions_from(text@, prefix@, source_file@, 0));
                return out;
            },
        };
        let rest = text_of(&v, k + 3, v.len());
        assert(rest@ =~= text@.skip(k + 3));
        let ghost before = out@;
        match read_function(&rest, prefix, source_file) {
            Some(f) => {
                out.push(f);
                assert(function_views(out@) =~= function_views(before) + seq![f@]);
            },
            None => {
                assert(function_views(out@) =~= function_views(before) + seq![]);
            },
        }
        proof {
            assert(function_views(out@) + functions_from(text@, prefix@, source_file@, k + 4)
                =~= function_views(before) + functions_from(
                text@,
                prefix@,
                source_file@,
                from as int,
            ));
        }
        from = k + 4;
    }
}

/// A source file of the project.
#[derive(Debug)]
pub struct SourceFile {
    pub path: String,
    pub text: String,
}

/// What every mangled name of the package begins with.
pub open spec fn mangled_prefix(package_id: Seq<char>) -> Seq<char> {
    "Java_"@ + replaced(package_id, '.', "_"@) + "_"@
}

/// Whether a path names a Rust source file: it leads to a file with the extension
/// `rs`.
pub open spec fn rust_source(host: HostOs, path: Seq<char>) -> bool {
    extension_of(host, path) == Some("rs"@)
}

/// Whether a path names a Rust source file.
pub fn is_rust_source(host: HostOs, path: &str) -> (r: bool)
    ensures
        r == rust_source(host, path@),
{
    match find_extension(host, path) {
        Some(extension) => same(&extension, "rs"),
        None => false,
    }
}

/// The exported functions in the Rust sources among the first `n` files.
pub open spec fn functions_in(
    host: HostOs,
    files: Seq<SourceFile>,
    prefix: Seq<char>,
    n: nat,
) -> Seq<JniFunctionView>
    decreases n,
{
    if n == 0 || n > files.len() {
        seq![]
    } else {
        let f = files[n - 1];
        functions_in(host, files, prefix, (n - 1) as nat) + (if rust_source(host, f.path@) {
            functions_from(f.text@, prefix, f.path@, 0)
        } else {
            seq![]
        })
    }
}

/// The exported functions of a package, in the order of the files.
pub fn scan_dir(host: HostOs, files: &Vec<SourceFile>, package_id: &str) -> (r: Vec<JniFunction>)
    ensures
        function_views(r@) == functions_in(
            host,
            files@,
            mangled_prefix(package_id@),
            files@.len(),
        ),
{
    let mut prefix = "Java_".to_owned();
    prefix.append(&replace_char(package_id, '.', "_"));
    prefix.append("_");
    let mut out: Vec<JniFunction> = Vec::new();
    assert(function_views(out@) =~= seq![]);
    for i in 0..files.len()
        invariant
            prefix@ == mangled_prefix(package_id@),
            function_views(out@) == functions_in(host, files@, prefix@, i as nat),
    {
        let ghost before = out@;
        if is_rust_source(host, &files[i].path) {
            let mut found = scan_source(&files[i].text, &prefix, &files[i].path);
            let ghost f = found@;
            out.append(&mut found);
            assert(function_views(out@) =~= function_views(before) + function_views(f));
        } else {
            assert(function_views(out@) =~= function_views(before) + seq![]);
        }
    }
    out
}

// ---------------------------------------------------------------------------
// What holds of every scan

/// A mangled name gives back the class and the method it was made of, as long
/// as the method's name holds no underscore.
pub proof fn mangled_name_read_back(prefix: Seq<char>, class: Seq<char>, method: Seq<char>)
    requires
        class.len() > 0,
        method.len() > 0,
        !method.contains('_'),
    ensures
        class_and_method(prefix + class.push('_') + method, prefix) == Some((class, method)),
{
    let name = prefix + class.push('_') + method;
    split_last_of_joined(class, method, '_');
    assert(name.skip(prefix.len() as int) =~= class.push('_') + method);
    assert(name.subrange(0, prefix.len() as int) =~= prefix);
}

/// Java sees a parameter for each Rust one but the first two, at most.
pub proof fn java_params_bounded(params: Seq<Seq<char>>, n: nat)
    ensures
        java_params_of(params, n).len() <= n,
        unrecognized_of(params, n).len() <= java_params_of(params, n).len(),
    decreases n,
{
    if n > 0 && n <= params.len() {
        java_params_bounded(params, (n - 1) as nat);
    }
}

/// Every function that a scan finds has a class and a method, comes from the
/// file that was scanned, and lists no more unrecognised types than parameters.
pub proof fn found_functions_are_named(
    text: Seq<char>,
    prefix: Seq<char>,
    source_file: Seq<char>,
    from: int,
)
    requires
        0 <= from <= text.len(),
    ensures
        forall|i: int|
            0 <= i < functions_from(text, prefix, source_file, from).len() ==> {
                let f = #[trigger] functions_from(text, prefix, source_file, from)[i];
                &&& f.class_name.len() > 0
                &&& f.method_name.len() > 0
                &&& f.source_file == source_file
                &&& f.unrecognized_types.len() <= f.java_params.len()
            },
    decreases text.len() - from,
{
    find_text_props(text, "fn Java_"@, from);
    reveal_strlit("fn Java_");
    assert("fn Java_"@.len() == 8);
    if let Some(k) = find_text(text, "fn Java_"@, from) {
        let rest = text.skip(k + 3);
        found_functions_are_named(text, prefix, source_file, k + 4);
        let open = find_char(rest, '(', 0);
        if let Some(close) = closing_from(rest, open, 0) {
            let user = user_params(top_level_parts(rest.subrange(open + 1, close)));
            java_params_bounded(user, user.len());
        }
        let here: Seq<JniFunctionView> = match function_at(rest, prefix, source_file) {
            Some(f) => seq![f],
            None => seq![],
        };
        let later = functions_from(text, prefix, source_file, k + 4);
        let all = functions_from(text, prefix, source_file, from);
        assert(all == here + later);
        assert forall|i: int| 0 <= i < all.len() implies {
            let f = #[trigger] all[i];
            &&& f.class_name.len() > 0
            &&& f.method_name.len() > 0
            &&& f.source_file == source_file
            &&& f.unrecognized_types.len() <= f.java_params.len()
        } by {
            if i >= here.len() {
                assert(all[i] == later[i - here.len()]);
            }
        }
    }
}

// ---------------------------------------------------------------------------
// Java

/// A parameter list in Java, up to the parameter before `n`.
pub open spec fn param_list(params: Seq<(Seq<char>, Seq<char>)>, n: nat) -> Seq<char>
    decreases n,
{
    if n == 0 || n > params.len() {
        seq![]
    } else {
        param_list(params, (n - 1) as nat) + (if n > 1 {
            ", "@
        } else {
            ""@
        }) + params[n - 1].0 + " "@ + params[n - 1].1
    }
}

/// The declaration of one function, with a comment on where it comes from.
pub open spec fn declaration(f: JniFunctionView) -> Seq<char> {
    "    // generated from "@ + f.source_file + " :: "@ + f.class_name + "\n"@
        + "    public static native "@ + f.java_return + " "@ + f.method_name + "("@ + param_list(
        f.java_params,
        f.java_params.len(),
    ) + ");\n"@
}

/// The declarations of the first `n` functions.
pub open spec fn declarations(functions: Seq<JniFunctionView>, n: nat) -> Seq<char>
    decreases n,
{
    if n == 0 || n > functions.len() {
        seq![]
    } else {
        declarations(functions, (n - 1) as nat) + declaration(functions[n - 1])
    }
}

/// Those functions that come from a file, in order.
pub open spec fn of_file(functions: Seq<JniFunctionView>, file: Seq<char>) -> Seq<JniFunctionView>
    decreases functions.len(),
{
    if functions.len() == 0 {
        seq![]
    } else if functions.last().source_file == file {
        of_file(functions.drop_last(), file).push(functions.last())
    } else {
        of_file(functions.drop_last(), file)
    }
}

/// The files that functions come from, each once, in the order of their first
/// appearance.
pub open spec fn source_files(functions: Seq<JniFunctionView>) -> Seq<Seq<char>>
    decreases functions.len(),
{
    if functions.len() == 0 {
        seq![]
    } else {
        let before = source_files(functions.drop_last());
        if before.contains(functions.last().source_file) {
            before
        } else {
            before.push(functions.last().source_file)
        }
    }
}

/// The functions of the first file, then those of the second, and so on.
pub open spec fn of_files(functions: Seq<JniFunctionView>, files: Seq<Seq<char>>) -> Seq<
    JniFunctionView,
>
    decreases files.len(),
{
    if files.len() == 0 {
        seq![]
    } else {
        of_files(functions, files.drop_last()) + of_file(functions, files.last())
    }
}

/// The functions grouped by the file that they come from. The files stand in the
/// order of their first appearance, and the functions of a file in theirs.
pub open spec fn by_file(functions: Seq<JniFunctionView>) -> Seq<JniFunctionView> {
    of_files(functions, source_files(functions))
}

/// A Java class that loads the library and declares the functions, grouped by the
/// file that they come from.
pub open spec fn bindings_class(
    package: Seq<char>,
    class_name: Seq<char>,
    lib_name: Seq<char>,
    functions: Seq<JniFunctionView>,
) -> Seq<char> {
    "package "@ + package + ";\n\npublic final class "@ + class_name
        + " {\n    static {\n        System.loadLibrary(\""@ + lib_name + "\");\n    }\n\n"@
        + declarations(by_file(functions), by_file(functions).len()) + "}\n"@
}

fn push_declaration(out: &mut String, f: &JniFunction)
    ensures
        final(out)@ == old(out)@ + declaration(f@),
{
    let mut text = "    // generated from ".to_owned();
    text.append(&f.source_file);
    text.append(" :: ");
    text.append(&f.class_name);
    text.append("\n");
    text.append("    public static native ");
    text.append(&f.java_return);
    text.append(" ");
    text.append(&f.method_name);
    text.append("(");
    let mut params = String::new();
    for i in 0..f.java_params.len()
        invariant
            params@ == param_list(f@.java_params, i as nat),
    {
        let ghost before = params@;
        if i > 0 {
            params.append(", ");
        } else {
            proof {
                reveal_strlit("");
                assert(params@ + ""@ =~= params@);
            }
        }
        params.append(&f.java_params[i].0);
        params.append(" ");
        params.append(&f.java_params[i].1);
        assert(f@.java_params[i as int] == (
            f.java_params@[i as int].0@,
            f.java_params@[i as int].1@,
        ));
    }
    text.append(&params);
    text.append(");\n");
    out.append(&text);
}

/// The files that functions come from, each once, in the order of their first
/// appearance.
fn files_of(functions: &Vec<JniFunction>) -> (r: Vec<String>)
    ensures
        views(r@) == source_files(function_views(functions@)),
{
    let ghost all = function_views(functions@);
    let mut out: Vec<String> = Vec::new();
    assert(views(out@) =~= seq![]);
    for i in 0..functions.len()
        invariant
            all == function_views(functions@),
            views(out@) == source_files(all.take(i as int)),
    {
        proof {
            assert(all.take(i + 1).drop_last() =~= all.take(i as int));
            assert(all.take(i + 1).last() == functions@[i as int]@);
        }
        if !has_string(&out, &functions[i].source_file) {
            let ghost before = out@;
            out.push(functions[i].source_file.clone());
            assert(views(out@) =~= views(before).push(functions@[i as int].source_file@));
        }
    }
    assert(all.take(all.len() as int) =~= all);
    out
}

fn push_of_file(out: &mut Vec<JniFunction>, functions: &Vec<JniFunction>, file: &str)
    ensures
        function_views(final(out)@) == function_views(old(out)@) + of_file(
            function_views(functions@),
            file@,
        ),
{
    let ghost all = function_views(functions@);
    let ghost start = function_views(out@);
    assert(start + of_file(all.take(0), file@) =~= start);
    for i in 0..functions.len()
        invariant
            all == function_views(functions@),
            function_views(out@) == start + of_file(all.take(i as int), file@),
    {
        proof {
            assert(all.take(i + 1).drop_last() =~= all.take(i as int));
            assert(all.take(i + 1).last() == functions@[i as int]@);
        }
        if same(&functions[i].source_file, file) {
            let ghost before = out@;
            let f = functions[i].clone();
            out.push(f);
            proof {
                assert(function_views(out@) =~= function_views(before).push(f@));
                assert(function_views(out@) =~= start + of_file(all.take(i + 1), file@));
            }
        }
    }
    assert(all.take(all.len() as int) =~= all);
}

/// The functions grouped by the file that they come from.
fn group_by_file(functions: &Vec<JniFunction>) -> (r: Vec<JniFunction>)
    ensures
        function_views(r@) == by_file(function_views(functions@)),
{
    let ghost all = function_views(functions@);
    let files = files_of(functions);
    let mut out: Vec<JniFunction> = Vec::new();
    assert(function_views(out@) =~= seq![]);
    for i in 0..files.len()
        invariant
            all == function_views(functions@),
            function_views(out@) == of_files(all, views(files@).take(i as int)),
    {
        push_of_file(&mut out, functions, &files[i]);
        proof {
            assert(views(files@).take(i + 1).drop_last() =~= views(files@).take(i as int));
            assert(views(files@).take(i + 1).last() == files@[i as int]@);
        }
    }
    assert(views(files@).take(files@.len() as int) =~= views(files@));
    out
}

proof fn of_file_of_two(a: Seq<JniFunctionView>, b: Seq<JniFunctionView>, file: Seq<char>)
    ensures
        of_file(a + b, file) == of_file(a, file) + of_file(b, file),
    decreases b.len(),
{
    if b.len() == 0 {
        assert(a + b =~= a);
        assert(of_file(a, file) + of_file(b, file) =~= of_file(a, file));
    } else {
        of_file_of_two(a, b.drop_last(), file);
        assert((a + b).drop_last() =~= a + b.drop_last());
        assert(of_file(a + b, file) =~= of_file(a, file) + of_file(b, file));
    }
}

proof fn of_file_twice(functions: Seq<JniFunctionView>, one: Seq<char>, other: Seq<char>)
    ensures
        of_file(of_file(functions, one), other) == (if one == other {
            of_file(functions, one)
        } else {
            seq![]
        }),
        forall|i: int|
            0 <= i < of_file(functions, one).len() ==> (#[trigger] of_file(
                functions,
                one,
            )[i]).source_file == one,
    decreases functions.len(),
{
    if functions.len() > 0 {
        of_file_twice(functions.drop_last(), one, other);
        let now = of_file(functions, one);
        if functions.last().source_file == one {
            assert(now.drop_last() =~= of_file(functions.drop_last(), one));
        }
    }
}

proof fn source_files_props(functions: Seq<JniFunctionView>)
    ensures
        source_files(functions).no_duplicates(),
        forall|i: int|
            0 <= i < functions.len() ==> source_files(functions).contains(
                (#[trigger] functions[i]).source_file,
            ),
    decreases functions.len(),
{
    if functions.len() > 0 {
        let rest = functions.drop_last();
        let before = source_files(rest);
        let now = source_files(functions);
        source_files_props(rest);
        assert forall|i: int| 0 <= i < functions.len() implies now.contains(
            (#[trigger] functions[i]).source_file,
        ) by {
            if i < rest.len() {
                assert(rest[i] == functions[i]);
                let k = choose|k: int| 0 <= k < before.len() && before[k] == rest[i].source_file;
                assert(now[k] == rest[i].source_file);
            } else if !before.contains(functions[i].source_file) {
                assert(now[before.len() as int] == functions[i].source_file);
            }
        }
    }
}

proof fn of_file_empty(functions: Seq<JniFunctionView>, file: Seq<char>)
    requires
        forall|i: int| 0 <= i < functions.len() ==> (#[trigger] functions[i]).source_file != file,
    ensures
        of_file(functions, file) == Seq::<JniFunctionView>::empty(),
    decreases functions.len(),
{
    if functions.len() > 0 {
        assert(functions[functions.len() - 1].source_file != file);
        assert forall|i: int| 0 <= i < functions.drop_last().len() implies (
        #[trigger] functions.drop_last()[i]).source_file != file by {
            assert(functions.drop_last()[i] == functions[i]);
        }
        of_file_empty(functions.drop_last(), file);
    }
}

/// The functions of files stand together, file by file, and those of each file are
/// the same as before.
proof fn of_files_props(functions: Seq<JniFunctionView>, files: Seq<Seq<char>>)
    requires
        files.no_duplicates(),
    ensures
        forall|file: Seq<char>| #[trigger]
            of_file(of_files(functions, files), file) == (if files.contains(file) {
                of_file(functions, file)
            } else {
                seq![]
            }),
        forall|i: int|
            0 <= i < of_files(functions, files).len() ==> files.contains(
                (#[trigger] of_files(functions, files)[i]).source_file,
            ),
        together(of_files(functions, files)),
    decreases files.len(),
{
    let g = of_files(functions, files);
    if files.len() > 0 {
        let rest = files.drop_last();
        let last = files.last();
        assert(files[files.len() - 1] == last);
        assert(rest.no_duplicates()) by {
            assert forall|i: int, j: int| 0 <= i < rest.len() && 0 <= j < rest.len() && i
                != j implies rest[i] != rest[j] by {
                assert(rest[i] == files[i] && rest[j] == files[j]);
            }
        }
        of_files_props(functions, rest);
        let a = of_files(functions, rest);
        let b = of_file(functions, last);
        assert(g == a + b);
        assert(!rest.contains(last)) by {
            if rest.contains(last) {
                let k = choose|k: int| 0 <= k < rest.len() && rest[k] == last;
                assert(files[k] == files[files.len() - 1]);
            }
        }
        of_file_twice(functions, last, last);
        assert forall|file: Seq<char>| #[trigger]
            of_file(g, file) == (if files.contains(file) {
                of_file(functions, file)
            } else {
                seq![]
            }) by {
            of_file_of_two(a, b, file);
            of_file_twice(functions, last, file);
            assert(of_file(a, file) == (if rest.contains(file) {
                of_file(functions, file)
            } else {
                seq![]
            }));
            if file == last {
                assert(of_file(a, file) + of_file(b, file) =~= of_file(functions, file));
            } else {
                assert(of_file(a, file) + of_file(b, file) =~= of_file(a, file));
                if files.contains(file) {
                    let k = choose|k: int| 0 <= k < files.len() && files[k] == file;
                    assert(rest[k] == file);
                }
                if rest.contains(file) {
                    let k = choose|k: int| 0 <= k < rest.len() && rest[k] == file;
                    assert(files[k] == file);
                }
            }
        }
        assert forall|i: int| 0 <= i < g.len() implies files.contains(
            (#[trigger] g[i]).source_file,
        ) by {
            if i < a.len() {
                assert(g[i] == a[i]);
                let k = choose|k: int| 0 <= k < rest.len() && rest[k] == a[i].source_file;
                assert(files[k] == g[i].source_file);
            } else {
                assert(g[i] == b[i - a.len()]);
            }
        }
        assert forall|i: int, j: int, k: int|
            0 <= i < j < k < g.len() && (#[trigger] g[i]).source_file == (
            #[trigger] g[k]).source_file implies (#[trigger] g[j]).source_file
            == g[i].source_file by {
            if k < a.len() {
                assert(a[i] == g[i] && a[j] == g[j] && a[k] == g[k]);
            } else {
                assert(g[k] == b[k - a.len()]);
                if i < a.len() {
                    assert(g[i] == a[i]);
                    assert(rest.contains(a[i].source_file));
                } else {
                    assert(g[i] == b[i - a.len()] && g[j] == b[j - a.len()]);
                }
            }
        }
    } else {
        assert forall|file: Seq<char>| #[trigger] of_file(g, file) == Seq::<
            JniFunctionView,
        >::empty() by {
            of_file_empty(g, file);
        }
    }
}

/// Whether functions of one file stand together: between two of them stands none
/// of another.
pub open spec fn together(functions: Seq<JniFunctionView>) -> bool {
    forall|i: int, j: int, k: int|
        0 <= i < j < k < functions.len() && (#[trigger] functions[i]).source_file == (
        #[trigger] functions[k]).source_file ==> (#[trigger] functions[j]).source_file
            == functions[i].source_file
}

proof fn count_in_file(functions: Seq<JniFunctionView>, f: JniFunctionView)
    ensures
        of_file(functions, f.source_file).to_multiset().count(f)
            == functions.to_multiset().count(f),
    decreases functions.len(),
{
    broadcast use vstd::seq_lib::group_to_multiset_ensures;

    if functions.len() > 0 {
        count_in_file(functions.drop_last(), f);
        assert(functions =~= functions.drop_last().push(functions.last()));
    }
}

/// Grouping keeps every function, each as often as before, keeps the functions of
/// a file in their order, and puts them together.
pub proof fn functions_are_grouped(functions: Seq<JniFunctionView>)
    ensures
        by_file(functions).to_multiset() == functions.to_multiset(),
        forall|file: Seq<char>| #[trigger]
            of_file(by_file(functions), file) == of_file(functions, file),
        together(by_file(functions)),
{
    let files = source_files(functions);
    source_files_props(functions);
    of_files_props(functions, files);
    assert forall|file: Seq<char>| #[trigger]
        of_file(by_file(functions), file) == of_file(functions, file) by {
        if !files.contains(file) {
            of_file_empty(functions, file);
        }
    }
    assert forall|f: JniFunctionView| #[trigger]
        by_file(functions).to_multiset().count(f) == functions.to_multiset().count(f) by {
        count_in_file(functions, f);
        count_in_file(by_file(functions), f);
    }
    assert(by_file(functions).to_multiset() =~= functions.to_multiset());
}

/// A Java class that loads the library and declares every function as a
/// `public static native` method, grouped by the file that it comes from.
pub fn generate_bindings_class(
    package: &str,
    class_name: &str,
    lib_name: &str,
    functions: &Vec<JniFunction>,
) -> (r: String)
    ensures
        r@ == bindings_class(package@, class_name@, lib_name@, function_views(functions@)),
{
    let grouped = group_by_file(functions);
    let mut decls = String::new();
    for i in 0..grouped.len()
        invariant
            decls@ == declarations(function_views(grouped@), i as nat),
    {
        push_declaration(&mut decls, &grouped[i]);
        assert(function_views(grouped@)[i as int] == grouped@[i as int]@);
    }
    let mut out = "package ".to_owned();
    out.append(package);
    out.append(";\n\npublic final class ");
    out.append(class_name);
    out.append(" {\n    static {\n        System.loadLibrary(\"");
    out.append(lib_name);
    out.append("\");\n    }\n\n");
    out.append(&decls);
    out.append("}\n");
    out
}

// ---------------------------------------------------------------------------
// What holds of every type

/// The primitive types that JNI has names of its own for: that name and the Rust type
/// that it stands for.
pub open spec fn primitives() -> Seq<(Seq<char>, Seq<char>)> {
    seq![
        ("jboolean"@, "bool"@),
        ("jbyte"@, "i8"@),
        ("jchar"@, "u16"@),
        ("jshort"@, "i16"@),
        ("jint"@, "i32"@),
        ("jlong"@, "i64"@),
        ("jfloat"@, "f32"@),
        ("jdouble"@, "f64"@),
    ]
}

/// How many bits a Java primitive type has; a boolean, which has no width of its own,
/// counts as one.
pub open spec fn java_width(t: Seq<char>) -> Option<nat> {
    if t == "boolean"@ {
        Some(1)
    } else if t == "byte"@ {
        Some(8)
    } else if t == "char"@ || t == "short"@ {
        Some(16)
    } else if t == "int"@ || t == "float"@ {
        Some(32)
    } else if t == "long"@ || t == "double"@ {
        Some(64)
    } else {
        None
    }
}

/// How many bits a Rust primitive type has.
pub open spec fn rust_width(t: Seq<char>) -> Option<nat> {
    if t == "bool"@ {
        Some(1)
    } else if t == "i8"@ {
        Some(8)
    } else if t == "u16"@ || t == "i16"@ {
        Some(16)
    } else if t == "i32"@ || t == "f32"@ {
        Some(32)
    } else if t == "i64"@ || t == "f64"@ {
        Some(64)
    } else {
        None
    }
}

/// How long a name is and how it begins, which tells the names of types apart.
spec fn shape(s: Seq<char>) -> (nat, char, char) {
    (s.len(), s[0], s[1])
}

proof fn rust_shapes()
    ensures
        shape("jboolean"@) == (8nat, 'j', 'b'),
        shape("bool"@) == (4nat, 'b', 'o'),
        shape("jbyte"@) == (5nat, 'j', 'b'),
        shape("i8"@) == (2nat, 'i', '8'),
        shape("jchar"@) == (5nat, 'j', 'c'),
        shape("u16"@) == (3nat, 'u', '1'),
        shape("jshort"@) == (6nat, 'j', 's'),
        shape("i16"@) == (3nat, 'i', '1'),
        shape("jint"@) == (4nat, 'j', 'i'),
        shape("i32"@) == (3nat, 'i', '3'),
        shape("jlong"@) == (5nat, 'j', 'l'),
        shape("i64"@) == (3nat, 'i', '6'),
        shape("jfloat"@) == (6nat, 'j', 'f'),
        shape("f32"@) == (3nat, 'f', '3'),
        shape("jdouble"@) == (7nat, 'j', 'd'),
        shape("f64"@) == (3nat, 'f', '6'),
        shape("jstring"@) == (7nat, 'j', 's'),
        shape("jobject"@) == (7nat, 'j', 'o'),
        shape("jclass"@) == (6nat, 'j', 'c'),
        shape("jthrowable"@) == (10nat, 'j', 't'),
        shape("jbyteArray"@) == (10nat, 'j', 'b'),
        shape("jintArray"@) == (9nat, 'j', 'i'),
        shape("jfloatArray"@) == (11nat, 'j', 'f'),
        shape("jdoubleArray"@) == (12nat, 'j', 'd'),
        shape("jlongArray"@) == (10nat, 'j', 'l'),
        shape("jbooleanArray"@) == (13nat, 'j', 'b'),
        shape("jobjectArray"@) == (12nat, 'j', 'o'),
        shape("()"@) == (2nat, '(', ')'),
{
    assert(shape("jboolean"@) == (8nat, 'j', 'b')) by {
        reveal_strlit("jboolean");
    }
    assert(shape("bool"@) == (4nat, 'b', 'o')) by {
        reveal_strlit("bool");
    }
    assert(shape("jbyte"@) == (5nat, 'j', 'b')) by {
        reveal_strlit("jbyte");
    }
    assert(shape("i8"@) == (2nat, 'i', '8')) by {
        reveal_strlit("i8");
    }
    assert(shape("jchar"@) == (5nat, 'j', 'c')) by {
        reveal_strlit("jchar");
    }
    assert(shape("u16"@) == (3nat, 'u', '1')) by {
        reveal_strlit("u16");
    }
    assert(shape("jshort"@) == (6nat, 'j', 's')) by {
        reveal_strlit("jshort");
    }
    assert(shape("i16"@) == (3nat, 'i', '1')) by {
        reveal_strlit("i16");
    }
    assert(shape("jint"@) == (4nat, 'j', 'i')) by {
        reveal_strlit("jint");
    }
    assert(shape("i32"@) == (3nat, 'i', '3')) by {
        reveal_strlit("i32");
    }
    assert(shape("jlong"@) == (5nat, 'j', 'l')) by {
        reveal_strlit("jlong");
    }
    assert(shape("i64"@) == (3nat, 'i', '6')) by {
        reveal_strlit("i64");
    }
    assert(shape("jfloat"@) == (6nat, 'j', 'f')) by {
        reveal_strlit("jfloat");
    }
    assert(shape("f32"@) == (3nat, 'f', '3')) by {
        reveal_strlit("f32");
    }
    assert(shape("jdouble"@) == (7nat, 'j', 'd')) by {
        reveal_strlit("jdouble");
    }
    assert(shape("f64"@) == (3nat, 'f', '6')) by {
        reveal_strlit("f64");
    }
    assert(shape("jstring"@) == (7nat, 'j', 's')) by {
        reveal_strlit("jstring");
    }
    assert(shape("jobject"@) == (7nat, 'j', 'o')) by {
        reveal_strlit("jobject");
    }
    assert(shape("jclass"@) == (6nat, 'j', 'c')) by {
        reveal_strlit("jclass");
    }
    assert(shape("jthrowable"@) == (10nat, 'j', 't')) by {
        reveal_strlit("jthrowable");
    }
    assert(shape("jbyteArray"@) == (10nat, 'j', 'b')) by {
        reveal_strlit("jbyteArray");
    }
    assert(shape("jintArray"@) == (9nat, 'j', 'i')) by {
        reveal_strlit("jintArray");
    }
    assert(shape("jfloatArray"@) == (11nat, 'j', 'f')) by {
        reveal_strlit("jfloatArray");
    }
    assert(shape("jdoubleArray"@) == (12nat, 'j', 'd')) by {
        reveal_strlit("jdoubleArray");
    }
    assert(shape("jlongArray"@) == (10nat, 'j', 'l')) by {
        reveal_strlit("jlongArray");
    }
    assert(shape("jbooleanArray"@) == (13nat, 'j', 'b')) by {
        reveal_strlit("jbooleanArray");
    }
    assert(shape("jobjectArray"@) == (12nat, 'j', 'o')) by {
        reveal_strlit("jobjectArray");
    }
    assert(shape("()"@) == (2nat, '(', ')')) by {
        reveal_strlit("()");
    }
}

proof fn java_shapes()
    ensures
        shape("boolean"@) == (7nat, 'b', 'o'),
        shape("byte"@) == (4nat, 'b', 'y'),
        shape("char"@) == (4nat, 'c', 'h'),
        shape("short"@) == (5nat, 's', 'h'),
        shape("int"@) == (3nat, 'i', 'n'),
        shape("long"@) == (4nat, 'l', 'o'),
        shape("float"@) == (5nat, 'f', 'l'),
        shape("double"@) == (6nat, 'd', 'o'),
{
    assert(shape("boolean"@) == (7nat, 'b', 'o')) by {
        reveal_strlit("boolean");
    }
    assert(shape("byte"@) == (4nat, 'b', 'y')) by {
        reveal_strlit("byte");
    }
    assert(shape("char"@) == (4nat, 'c', 'h')) by {
        reveal_strlit("char");
    }
    assert(shape("short"@) == (5nat, 's', 'h')) by {
        reveal_strlit("short");
    }
    assert(shape("int"@) == (3nat, 'i', 'n')) by {
        reveal_strlit("int");
    }
    assert(shape("long"@) == (4nat, 'l', 'o')) by {
        reveal_strlit("long");
    }
    assert(shape("float"@) == (5nat, 'f', 'l')) by {
        reveal_strlit("float");
    }
    assert(shape("double"@) == (6nat, 'd', 'o')) by {
        reveal_strlit("double");
    }
}

/// The Java types of the primitives, one by one.
proof fn primitives_one_by_one()
    ensures
        java_type("jboolean"@) == "boolean"@,
        java_type("bool"@) == "boolean"@,
        java_type("jbyte"@) == "byte"@,
        java_type("i8"@) == "byte"@,
        java_type("jchar"@) == "char"@,
        java_type("u16"@) == "char"@,
        java_type("jshort"@) == "short"@,
        java_type("i16"@) == "short"@,
        java_type("jint"@) == "int"@,
        java_type("i32"@) == "int"@,
        java_type("jlong"@) == "long"@,
        java_type("i64"@) == "long"@,
        java_type("jfloat"@) == "float"@,
        java_type("f32"@) == "float"@,
        java_type("jdouble"@) == "double"@,
        java_type("f64"@) == "double"@,
{
    rust_shapes();
}

/// The names of Java's primitives are those of JNI's without the `j`, and no two are
/// the same.
proof fn java_names_one_by_one()
    ensures
        "jboolean"@.skip(1) == "boolean"@,
        "jbyte"@.skip(1) == "byte"@,
        "jchar"@.skip(1) == "char"@,
        "jshort"@.skip(1) == "short"@,
        "jint"@.skip(1) == "int"@,
        "jlong"@.skip(1) == "long"@,
        "jfloat"@.skip(1) == "float"@,
        "jdouble"@.skip(1) == "double"@,
        "byte"@ != "boolean"@,
        "char"@ != "boolean"@,
        "char"@ != "byte"@,
        "short"@ != "boolean"@,
        "short"@ != "byte"@,
        "short"@ != "char"@,
        "int"@ != "boolean"@,
        "int"@ != "byte"@,
        "int"@ != "char"@,
        "int"@ != "short"@,
        "long"@ != "boolean"@,
        "long"@ != "byte"@,
        "long"@ != "char"@,
        "long"@ != "short"@,
        "long"@ != "int"@,
        "float"@ != "boolean"@,
        "float"@ != "byte"@,
        "float"@ != "char"@,
        "float"@ != "short"@,
        "float"@ != "int"@,
        "float"@ != "long"@,
        "double"@ != "boolean"@,
        "double"@ != "byte"@,
        "double"@ != "char"@,
        "double"@ != "short"@,
        "double"@ != "int"@,
        "double"@ != "long"@,
        "double"@ != "float"@,
{
    java_shapes();
    assert("jboolean"@.skip(1) =~= "boolean"@) by {
        reveal_strlit("jboolean");
        reveal_strlit("boolean");
    }
    assert("jbyte"@.skip(1) =~= "byte"@) by {
        reveal_strlit("jbyte");
        reveal_strlit("byte");
    }
    assert("jchar"@.skip(1) =~= "char"@) by {
        reveal_strlit("jchar");
        reveal_strlit("char");
    }
    assert("jshort"@.skip(1) =~= "short"@) by {
        reveal_strlit("jshort");
        reveal_strlit("short");
    }
    assert("jint"@.skip(1) =~= "int"@) by {
        reveal_strlit("jint");
        reveal_strlit("int");
    }
    assert("jlong"@.skip(1) =~= "long"@) by {
        reveal_strlit("jlong");
        reveal_strlit("long");
    }
    assert("jfloat"@.skip(1) =~= "float"@) by {
        reveal_strlit("jfloat");
        reveal_strlit("float");
    }
    assert("jdouble"@.skip(1) =~= "double"@) by {
        reveal_strlit("jdouble");
        reveal_strlit("double");
    }
}

proof fn rust_names_one_by_one()
    ensures
        "i8"@ != "bool"@,
        "u16"@ != "bool"@,
        "u16"@ != "i8"@,
        "i16"@ != "bool"@,
        "i16"@ != "i8"@,
        "i16"@ != "u16"@,
        "i32"@ != "bool"@,
        "i32"@ != "i8"@,
        "i32"@ != "u16"@,
        "i32"@ != "i16"@,
        "i64"@ != "bool"@,
        "i64"@ != "i8"@,
        "i64"@ != "u16"@,
        "i64"@ != "i16"@,
        "i64"@ != "i32"@,
        "f32"@ != "bool"@,
        "f32"@ != "i8"@,
        "f32"@ != "u16"@,
        "f32"@ != "i16"@,
        "f32"@ != "i32"@,
        "f32"@ != "i64"@,
        "f64"@ != "bool"@,
        "f64"@ != "i8"@,
        "f64"@ != "u16"@,
        "f64"@ != "i16"@,
        "f64"@ != "i32"@,
        "f64"@ != "i64"@,
        "f64"@ != "f32"@,
{
    rust_shapes();
}

proof fn primitives_are_no_objects()
    ensures
        !known_object("jboolean"@),
        !known_object("bool"@),
        !known_object("jbyte"@),
        !known_object("i8"@),
        !known_object("jchar"@),
        !known_object("u16"@),
        !known_object("jshort"@),
        !known_object("i16"@),
        !known_object("jint"@),
        !known_object("i32"@),
        !known_object("jlong"@),
        !known_object("i64"@),
        !known_object("jfloat"@),
        !known_object("f32"@),
        !known_object("jdouble"@),
        !known_object("f64"@),
{
    rust_shapes();
}

/// A primitive type is declared in Java as what JNI calls it without the `j`, whether
/// it is written by its JNI name or as the Rust type that this stands for. It keeps
/// its width, and different ones stay different.
pub proof fn primitives_keep_their_width(i: int, k: int)
    requires
        0 <= i < primitives().len(),
        0 <= k < primitives().len(),
    ensures
        ({
            let (alias, rust) = primitives()[i];
            let (_, other) = primitives()[k];
            &&& java_type(alias) == java_type(rust)
            &&& java_type(rust) == alias.skip(1)
            &&& rust_width(rust) is Some
            &&& java_width(java_type(rust)) == rust_width(rust)
            &&& i != k ==> java_type(rust) != java_type(other)
            &&& !known_object(alias) && !known_object(rust)
        }),
{
    primitives_one_by_one();
    java_names_one_by_one();
    rust_names_one_by_one();
    primitives_are_no_objects();
    assert(primitives()[0] == ("jboolean"@, "bool"@));
    assert(primitives()[1] == ("jbyte"@, "i8"@));
    assert(primitives()[2] == ("jchar"@, "u16"@));
    assert(primitives()[3] == ("jshort"@, "i16"@));
    assert(primitives()[4] == ("jint"@, "i32"@));
    assert(primitives()[5] == ("jlong"@, "i64"@));
    assert(primitives()[6] == ("jfloat"@, "f32"@));
    assert(primitives()[7] == ("jdouble"@, "f64"@));
}

/// The element types that JNI has names of array types for, by their JNI names.
pub open spec fn array_elements() -> Seq<Seq<char>> {
    seq!["jbyte"@, "jint"@, "jfloat"@, "jdouble"@, "jlong"@, "jboolean"@]
}

proof fn arrays_one_by_one()
    ensures
        java_type("jbyteArray"@) == "byte[]"@,
        java_type("jintArray"@) == "int[]"@,
        java_type("jfloatArray"@) == "float[]"@,
        java_type("jdoubleArray"@) == "double[]"@,
        java_type("jlongArray"@) == "long[]"@,
        java_type("jbooleanArray"@) == "boolean[]"@,
        java_type("jobjectArray"@) == "Object[]"@,
        java_type("jstring"@) == "String"@,
        java_type("()"@) == "void"@,
{
    rust_shapes();
}

proof fn array_names_one_by_one()
    ensures
        "jbyte"@ + "Array"@ == "jbyteArray"@,
        "byte"@ + "[]"@ == "byte[]"@,
        "jint"@ + "Array"@ == "jintArray"@,
        "int"@ + "[]"@ == "int[]"@,
        "jfloat"@ + "Array"@ == "jfloatArray"@,
        "float"@ + "[]"@ == "float[]"@,
        "jdouble"@ + "Array"@ == "jdoubleArray"@,
        "double"@ + "[]"@ == "double[]"@,
        "jlong"@ + "Array"@ == "jlongArray"@,
        "long"@ + "[]"@ == "long[]"@,
        "jboolean"@ + "Array"@ == "jbooleanArray"@,
        "boolean"@ + "[]"@ == "boolean[]"@,
        "jobject"@ + "Array"@ == "jobjectArray"@,
        "Object"@ + "[]"@ == "Object[]"@,
{
    reveal_strlit("jbyte");
    reveal_strlit("jint");
    reveal_strlit("jfloat");
    reveal_strlit("jdouble");
    reveal_strlit("jlong");
    reveal_strlit("jboolean");
    reveal_strlit("jobject");
    reveal_strlit("Array");
    reveal_strlit("[]");
    reveal_strlit("jbyteArray");
    reveal_strlit("jintArray");
    reveal_strlit("jfloatArray");
    reveal_strlit("jdoubleArray");
    reveal_strlit("jlongArray");
    reveal_strlit("jbooleanArray");
    reveal_strlit("jobjectArray");
    reveal_strlit("byte");
    reveal_strlit("int");
    reveal_strlit("float");
    reveal_strlit("double");
    reveal_strlit("long");
    reveal_strlit("boolean");
    reveal_strlit("Object");
    reveal_strlit("byte[]");
    reveal_strlit("int[]");
    reveal_strlit("float[]");
    reveal_strlit("double[]");
    reveal_strlit("long[]");
    reveal_strlit("boolean[]");
    reveal_strlit("Object[]");
    assert("jbyte"@ + "Array"@ =~= "jbyteArray"@);
    assert("byte"@ + "[]"@ =~= "byte[]"@);
    assert("jint"@ + "Array"@ =~= "jintArray"@);
    assert("int"@ + "[]"@ =~= "int[]"@);
    assert("jfloat"@ + "Array"@ =~= "jfloatArray"@);
    assert("float"@ + "[]"@ =~= "float[]"@);
    assert("jdouble"@ + "Array"@ =~= "jdoubleArray"@);
    assert("double"@ + "[]"@ =~= "double[]"@);
    assert("jlong"@ + "Array"@ =~= "jlongArray"@);
    assert("long"@ + "[]"@ =~= "long[]"@);
    assert("jboolean"@ + "Array"@ =~= "jbooleanArray"@);
    assert("boolean"@ + "[]"@ =~= "boolean[]"@);
    assert("jobject"@ + "Array"@ =~= "jobjectArray"@);
    assert("Object"@ + "[]"@ =~= "Object[]"@);
}

/// An array is declared in Java as an array of what its elements are declared as.
pub proof fn arrays_hold_their_elements(i: int)
    requires
        0 <= i < array_elements().len(),
    ensures
        java_type(array_elements()[i] + "Array"@) == java_type(array_elements()[i]) + "[]"@,
        known_object(array_elements()[i] + "Array"@),
        java_type("jobject"@ + "Array"@) == "Object"@ + "[]"@,
        java_type("jstring"@) == "String"@,
        java_type("()"@) == "void"@,
{
    arrays_one_by_one();
    array_names_one_by_one();
    primitives_one_by_one();
    assert(array_elements()[0] == "jbyte"@);
    assert(array_elements()[1] == "jint"@);
    assert(array_elements()[2] == "jfloat"@);
    assert(array_elements()[3] == "jdouble"@);
    assert(array_elements()[4] == "jlong"@);
    assert(array_elements()[5] == "jboolean"@);
}

/// A type that is neither primitive nor an array nor a string is declared as an
/// object, and is unrecognised unless it is one of JNI's own.
pub proof fn other_types_are_objects(t: Seq<char>)
    requires
        forall|i: int|
            0 <= i < primitives().len() ==> t != (#[trigger] primitives()[i]).0 && t
                != primitives()[i].1,
        forall|i: int|
            0 <= i < array_elements().len() ==> t != #[trigger] array_elements()[i] + "Array"@,
        t != "jobject"@ + "Array"@ && t != "jstring"@ && t != "()"@,
    ensures
        java_type(t) == "Object"@,
        known_object(t) <==> t == "jobject"@ || t == "jclass"@ || t == "jthrowable"@,
{
    array_names_one_by_one();
    assert(array_elements()[0] == "jbyte"@ && array_elements()[1] == "jint"@);
    assert(array_elements()[2] == "jfloat"@ && array_elements()[3] == "jdouble"@);
    assert(array_elements()[4] == "jlong"@ && array_elements()[5] == "jboolean"@);
    assert(primitives()[0] == ("jboolean"@, "bool"@) && primitives()[1] == ("jbyte"@, "i8"@));
    assert(primitives()[2] == ("jchar"@, "u16"@) && primitives()[3] == ("jshort"@, "i16"@));
    assert(primitives()[4] == ("jint"@, "i32"@) && primitives()[5] == ("jlong"@, "i64"@));
    assert(primitives()[6] == ("jfloat"@, "f32"@) && primitives()[7] == ("jdouble"@, "f64"@));
}

/// The parameters that Java sees are the parameters behind the first two, each with
/// the Java type of its own type, in their order; of those with a type none is left
/// out.
pub proof fn every_parameter_is_declared(params: Seq<Seq<char>>, n: nat)
    requires
        n <= params.len(),
        forall|i: int| 0 <= i < params.len() ==> (#[trigger] params[i]).contains(':'),
    ensures
        java_params_of(params, n).len() == n,
        forall|i: int|
            0 <= i < n ==> (#[trigger] java_params_of(params, n)[i]).0 == java_type(
                trimmed(params[i].skip(find_char(params[i], ':', 0) + 1)),
            ),
    decreases n,
{
    if n > 0 {
        every_parameter_is_declared(params, (n - 1) as nat);
        let p = params[n - 1];
        find_char_props(p, ':', 0);
        let k = choose|k: int| 0 <= k < p.len() && p[k] == ':';
        assert(find_char(p, ':', 0) < p.len());
    }
}

/// A parameter keeps its name but for underscores before it; one without another
/// character gets its position.
pub proof fn parameters_keep_their_names(i: nat, name: Seq<char>)
    requires
        name.len() > 0,
        no_white_space(name),
        name[0] != '_',
    ensures
        java_name(i, name) == name,
        java_name(i, seq!['_'] + name) == name,
        java_name(i, seq!['_']) == "arg"@ + decimal(i),
{
    trim_of_word(name);
    let s = seq!['_'] + name;
    assert forall|k: int| 0 <= k < s.len() implies !white_space(#[trigger] s[k]) by {
        if k > 0 {
            assert(s[k] == name[k - 1]);
        }
    }
    trim_of_word(s);
    assert(s.drop_first() =~= name);
    trim_of_word(seq!['_']);
    assert(seq!['_'].drop_first() =~= seq![]);
    assert(trim_left_char(name, '_') == name);
    assert(trim_left_char(s, '_') == name);
    assert(trim_left_char(seq![], '_') == Seq::<char>::empty());
    assert(trim_left_char(seq!['_'], '_') == Seq::<char>::empty());
}

proof fn trim_of_word(s: Seq<char>)
    requires
        s.len() > 0,
        no_white_space(s),
    ensures
        trimmed(s) == s,
{
    assert(!white_space(s[0]) && !white_space(s[s.len() - 1]));
}

/// The package's dots are underscores in the names of exports, which all begin with
/// it: what stands behind the beginning is told from it by the package alone.
pub proof fn prefix_names_the_package(package_id: Seq<char>)
    ensures
        mangled_prefix(package_id).len() == package_id.len() + 6,
        mangled_prefix(package_id).take(5) == "Java_"@,
        mangled_prefix(package_id).last() == '_',
        forall|i: int|
            0 <= i < package_id.len() ==> #[trigger] mangled_prefix(package_id)[i + 5] == (
            if package_id[i] == '.' {
                '_'
            } else {
                package_id[i]
            }),
{
    reveal_strlit("Java_");
    reveal_strlit("_");
    assert("_"@ =~= seq!['_']);
    replaced_one_for_one(package_id, '.', '_');
    let m = mangled_prefix(package_id);
    let r = replaced(package_id, '.', "_"@);
    assert(m.take(5) =~= "Java_"@);
    assert forall|i: int| 0 <= i < package_id.len() implies #[trigger] m[i + 5] == (
    if package_id[i] == '.' {
        '_'
    } else {
        package_id[i]
    }) by {
        assert(m[i + 5] == r[i]);
    }
}

/// A declaration names the function with its return type and its parameters, and the
/// file that it comes from.
#[verifier::rlimit(40)]
pub proof fn declaration_shows_function(f: JniFunctionView)
    ensures
        contains_text(
            declaration(f),
            "public static native "@ + f.java_return + " "@ + f.method_name + "("@ + param_list(
                f.java_params,
                f.java_params.len(),
            ) + ");"@,
        ),
        ("    // generated from "@ + f.source_file).is_prefix_of(declaration(f)),
{
    let d = declaration(f);
    let params = param_list(f.java_params, f.java_params.len());
    let native = "public static native "@;
    let close = ");"@;
    let pad = seq![' ', ' ', ' ', ' '];
    let end = seq!['\n'];
    let head = "    // generated from "@ + f.source_file + " :: "@ + f.class_name + "\n"@;
    assert("    public static native "@ =~= pad + native) by {
        reveal_strlit("    public static native ");
        reveal_strlit("public static native ");
    }
    assert(");\n"@ =~= close + end) by {
        reveal_strlit(");\n");
        reveal_strlit(");");
    }
    declaration_parts(
        head,
        pad,
        native,
        seq![f.java_return, " "@, f.method_name, "("@, params],
        close,
        end,
    );
    assert(d.subrange(0, ("    // generated from "@ + f.source_file).len() as int)
        =~= "    // generated from "@ + f.source_file);
}

proof fn declaration_parts(
    head: Seq<char>,
    pad: Seq<char>,
    native: Seq<char>,
    p: Seq<Seq<char>>,
    close: Seq<char>,
    end: Seq<char>,
)
    requires
        p.len() == 5,
    ensures
        contains_text(
            head + (pad + native) + p[0] + p[1] + p[2] + p[3] + p[4] + (close + end),
            native + p[0] + p[1] + p[2] + p[3] + p[4] + close,
        ),
{
    let core = native + p[0] + p[1] + p[2] + p[3] + p[4] + close;
    contains_in_middle(head + pad, core, end);
    assert((head + pad) + core + end =~= head + (pad + native) + p[0] + p[1] + p[2] + p[3] + p[4]
        + (close + end));
}

/// Parameters stand in a declaration in their order, each as its type and its name,
/// with commas between them.
pub proof fn parameters_stand_in_order(params: Seq<(Seq<char>, Seq<char>)>, n: nat)
    requires
        0 < n <= params.len(),
    ensures
        param_list(params, 0).len() == 0,
        param_list(params, n) == if n == 1 {
            params[0].0 + " "@ + params[0].1
        } else {
            param_list(params, (n - 1) as nat) + ", "@ + params[n - 1].0 + " "@ + params[n - 1].1
        },
{
    assert(""@ =~= seq![]) by {
        reveal_strlit("");
    }
    if n == 1 {
        assert(param_list(params, 0) =~= seq![]);
        assert(param_list(params, 1) =~= params[0].0 + " "@ + params[0].1);
    }
}

/// The class is in the package, loads the library, and declares every function.
pub proof fn class_declares_every_function(
    package: Seq<char>,
    class_name: Seq<char>,
    lib_name: Seq<char>,
    functions: Seq<JniFunctionView>,
    i: int,
)
    requires
        0 <= i < by_file(functions).len(),
    ensures
        contains_text(
            bindings_class(package, class_name, lib_name, functions),
            declaration(by_file(functions)[i]),
        ),
        contains_text(
            bindings_class(package, class_name, lib_name, functions),
            "System.loadLibrary(\""@ + lib_name + "\");"@,
        ),
        ("package "@ + package + ";"@).is_prefix_of(
            bindings_class(package, class_name, lib_name, functions),
        ),
        contains_text(
            bindings_class(package, class_name, lib_name, functions),
            "public final class "@ + class_name + " {"@,
        ),
{
    let g = by_file(functions);
    declarations_hold(g, g.len(), i);
    let d = declarations(g, g.len());
    let c = bindings_class(package, class_name, lib_name, functions);
    let mid = " {\n    static {\n        System.loadLibrary(\""@;
    let head = "package "@ + package + ";\n\npublic final class "@ + class_name + mid + lib_name
        + "\");\n    }\n\n"@;
    contains_in_part(head, d, "}\n"@, declaration(g[i]));
    assert(head + d + "}\n"@ =~= c);
    reveal_strlit(";\n\npublic final class ");
    reveal_strlit("public final class ");
    reveal_strlit(";");
    reveal_strlit(" {\n    static {\n        System.loadLibrary(\"");
    reveal_strlit(" {");
    reveal_strlit("System.loadLibrary(\"");
    reveal_strlit("\");\n    }\n\n");
    reveal_strlit("\");");
    assert(";\n\npublic final class "@ =~= ";"@ + seq!['\n', '\n'] + "public final class "@);
    assert(mid =~= " {"@ + mid.skip(2));
    assert(mid =~= mid.take(24) + "System.loadLibrary(\""@);
    assert("\");\n    }\n\n"@ =~= "\");"@ + "\");\n    }\n\n"@.skip(3));
    let tail = "\");\n    }\n\n"@.skip(3) + d + "}\n"@;
    let load = "System.loadLibrary(\""@ + lib_name + "\");"@;
    let before = "package "@ + package + ";\n\npublic final class "@ + class_name + mid.take(24);
    contains_in_middle(before, load, tail);
    assert(before + load + tail =~= c);
    let p = "package "@ + package + ";"@;
    assert(c.subrange(0, p.len() as int) =~= p);
    let title = "public final class "@ + class_name + " {"@;
    let rest = mid.skip(2) + lib_name + "\");\n    }\n\n"@ + d + "}\n"@;
    contains_in_middle(p + seq!['\n', '\n'], title, rest);
    assert(p + seq!['\n', '\n'] + title + rest =~= c);
}

proof fn declarations_hold(functions: Seq<JniFunctionView>, n: nat, i: int)
    requires
        0 <= i < n <= functions.len(),
    ensures
        contains_text(declarations(functions, n), declaration(functions[i])),
    decreases n,
{
    let before = declarations(functions, (n - 1) as nat);
    let last = declaration(functions[n - 1]);
    if i < n - 1 {
        declarations_hold(functions, (n - 1) as nat, i);
        contains_in_part(seq![], before, last, declaration(functions[i]));
        assert(seq![] + before + last =~= declarations(functions, n));
    } else {
        contains_in_middle(before, last, seq![]);
        assert(before + last + seq![] =~= declarations(functions, n));
    }
}

/// How many brackets are open before position `i`, less those closed.
pub open spec fn nesting(s: Seq<char>, i: int) -> int
    decreases i,
{
    if i <= 0 || i > s.len() {
        0
    } else {
        nesting(s, i - 1) + (if "<(["@.contains(s[i - 1]) {
            1int
        } else if ">)]"@.contains(s[i - 1]) {
            -1int
        } else {
            0int
        })
    }
}

/// Whether a text is one part of a list: its brackets close, and each of its commas is
/// within some.
pub open spec fn one_part(s: Seq<char>) -> bool {
    nesting(s, s.len() as int) == 0 && forall|i: int|
        0 <= i < s.len() && #[trigger] s[i] == ',' ==> nesting(s, i) != 0
}

proof fn brackets_by_name(c: char)
    ensures
        bracket_step(c) == (if "<(["@.contains(c) {
            1int
        } else if ">)]"@.contains(c) {
            -1int
        } else {
            0int
        }),
{
    reveal_strlit("<([");
    reveal_strlit(">)]");
    assert("<(["@ =~= seq!['<', '(', '[']);
    assert(">)]"@ =~= seq!['>', ')', ']']);
    assert("<(["@[0] == '<' && "<(["@[1] == '(' && "<(["@[2] == '[');
    assert(">)]"@[0] == '>' && ">)]"@[1] == ')' && ">)]"@[2] == ']');
    assert(seq!['<', '(', '['].contains(c) <==> c == '<' || c == '(' || c == '[');
    assert(seq!['>', ')', ']'].contains(c) <==> c == '>' || c == ')' || c == ']');
}

/// A list is cut at the commas outside of brackets: what stands before the first is the
/// first part, without white space around it, and left out where there is nothing.
pub proof fn first_part_is_cut_off(a: Seq<char>, b: Seq<char>)
    requires
        one_part(a),
    ensures
        top_level_parts(a.push(',') + b) == (if trimmed(a).len() > 0 {
            seq![trimmed(a)]
        } else {
            seq![]
        }) + top_level_parts(b),
        top_level_parts(a) == (if trimmed(a).len() > 0 {
            seq![trimmed(a)]
        } else {
            seq![]
        }),
{
    cut_from(a, b, 0);
    whole_from(a, 0);
    let s = a.push(',') + b;
    let k = a.len() + 1;
    assert(s.skip(k as int) =~= b);
    parts_from_shift(s, b, k as int, 0, 0, 0);
}

proof fn cut_from(a: Seq<char>, b: Seq<char>, i: int)
    requires
        one_part(a),
        0 <= i <= a.len(),
    ensures
        parts_from(a.push(',') + b, 0, i, nesting(a, i)) == part(a) + parts_from(
            a.push(',') + b,
            (a.len() + 1) as int,
            (a.len() + 1) as int,
            0,
        ),
    decreases a.len() - i,
{
    let s = a.push(',') + b;
    if i < a.len() {
        assert(s[i] == a[i]);
        brackets_by_name(a[i]);
        assert(nesting(a, i + 1) == nesting(a, i) + bracket_step(a[i]));
        cut_from(a, b, i + 1);
    } else {
        assert(s[i] == ',');
        assert(s.subrange(0, i) =~= a);
    }
}

proof fn whole_from(a: Seq<char>, i: int)
    requires
        one_part(a),
        0 <= i <= a.len(),
    ensures
        parts_from(a, 0, i, nesting(a, i)) == part(a),
    decreases a.len() - i,
{
    if i < a.len() {
        brackets_by_name(a[i]);
        assert(nesting(a, i + 1) == nesting(a, i) + bracket_step(a[i]));
        whole_from(a, i + 1);
    } else {
        assert(a.skip(0) =~= a);
    }
}

proof fn parts_from_shift(s: Seq<char>, b: Seq<char>, k: int, start: int, i: int, depth: int)
    requires
        0 <= k,
        s.len() == k + b.len(),
        s.skip(k) == b,
        0 <= start <= i <= b.len(),
    ensures
        parts_from(s, k + start, k + i, depth) == parts_from(b, start, i, depth),
    decreases b.len() - i,
{
    if i < b.len() {
        assert(s.skip(k)[i] == s[k + i]);
        if b[i] == ',' && depth == 0 {
            parts_from_shift(s, b, k, i + 1, i + 1, 0);
            assert(s.subrange(k + start, k + i) =~= s.skip(k).subrange(start, i));
        } else {
            parts_from_shift(s, b, k, start, i + 1, depth + bracket_step(b[i]));
        }
    } else {
        assert(s.skip(k + start) =~= s.skip(k).skip(start));
    }
}

/// The first two parameters are JNI's own; the user's are all behind them.
pub proof fn users_parameters_are_behind(env: Seq<char>, class: Seq<char>, rest: Seq<Seq<char>>)
    ensures
        user_params(seq![env, class] + rest) == rest,
        user_params(seq![env]).len() == 0,
        user_params(seq![]).len() == 0,
{
    let all = seq![env, class] + rest;
    if rest.len() > 0 {
        assert(all.skip(2) =~= rest);
    } else {
        assert(user_params(all) =~= rest);
    }
}

/// A function returns in Java what stands behind its arrow, and nothing where it has
/// none.
pub proof fn return_is_behind_arrow(before: Seq<char>, t: Seq<char>)
    requires
        !before.contains('-'),
        !t.contains('-'),
    ensures
        java_return_of(before + seq!['-', '>'] + t) == java_type(trimmed(t)),
        java_return_of(before) == "void"@,
{
    reveal_strlit("->");
    assert("->"@ =~= seq!['-', '>']);
    let tail = before + seq!['-', '>'] + t;
    find_text_props(tail, "->"@, 0);
    find_text_props(t, "->"@, 0);
    find_text_props(before, "->"@, 0);
    let n = before.len() as int;
    assert(tail.subrange(n, n + 2) =~= "->"@);
    assert(occurs_at(tail, "->"@, n));
    no_arrow(before);
    no_arrow(t);
    let k = find_text(tail, "->"@, 0)->0;
    if k < n {
        assert(tail.subrange(k, k + 2)[0] == tail[k]);
        assert(before[k] == '-');
    }
    assert(k == n);
    assert(tail.skip(n + 2) =~= t);
}

proof fn no_arrow(s: Seq<char>)
    requires
        !s.contains('-'),
    ensures
        find_text(s, "->"@, 0) is None,
{
    reveal_strlit("->");
    find_text_props(s, "->"@, 0);
    if let Some(k) = find_text(s, "->"@, 0) {
        assert(s.subrange(k, k + 2)[0] == "->"@[0]);
        assert(s[k] == '-');
    }
}

/// The functions of several files are those of each, one after another; of a file that
/// is not a Rust source there are none.
pub proof fn every_source_is_scanned(
    host: HostOs,
    files: Seq<SourceFile>,
    prefix: Seq<char>,
    n: nat,
    i: int,
    f: JniFunctionView,
)
    requires
        0 <= i < n <= files.len(),
        extension_of(host, files[i].path@) == Some("rs"@),
        functions_from(files[i].text@, prefix, files[i].path@, 0).contains(f),
    ensures
        functions_in(host, files, prefix, n).contains(f),
    decreases n,
{
    let before = functions_in(host, files, prefix, (n - 1) as nat);
    let all = functions_in(host, files, prefix, n);
    if i < n - 1 {
        every_source_is_scanned(host, files, prefix, (n - 1) as nat, i, f);
        let k = choose|k: int| 0 <= k < before.len() && before[k] == f;
        assert(all[k] == f);
    } else {
        let here = functions_from(files[i].text@, prefix, files[i].path@, 0);
        let k = choose|k: int| 0 <= k < here.len() && here[k] == f;
        assert(all[before.len() + k] == f);
    }
}

/// An export is read as it is written: its class and method from its name, its
/// parameters from between its brackets, and its return type from what stands between
/// them and its body.
pub proof fn export_is_read(
    name: Seq<char>,
    params: Seq<char>,
    tail: Seq<char>,
    prefix: Seq<char>,
    source_file: Seq<char>,
)
    requires
        no_white_space(name),
        !name.contains('('),
        !params.contains('('),
        !params.contains(')'),
    ensures
        ({
            let rest = name.push('(') + params + seq![')'] + tail;
            let user = user_params(top_level_parts(params));
            match class_and_method(name, prefix) {
                Some((class_name, method_name)) => {
                    let f = function_at(rest, prefix, source_file)->0;
                    &&& function_at(rest, prefix, source_file) is Some
                    &&& f.class_name == class_name
                    &&& f.method_name == method_name
                    &&& f.source_file == source_file
                    &&& f.java_params == java_params_of(user, user.len())
                    &&& f.unrecognized_types == unrecognized_of(user, user.len())
                    &&& f.java_return == java_return_of(tail.take(find_char(tail, '{', 0)))
                },
                None => function_at(rest, prefix, source_file) is None,
            }
        }),
{
    let rest = name.push('(') + params + seq![')'] + tail;
    let open = name.len() as int;
    let close = open + 1 + params.len();
    assert(rest[open] == '(' && rest[close] == ')');
    assert forall|i: int| 0 <= i < open implies rest[i] == name[i] by {}
    assert forall|i: int| open < i < close implies rest[i] == params[i - open - 1] by {}
    name_ends_before(rest, open, 0);
    find_char_props(rest, '(', 0);
    let k = find_char(rest, '(', 0);
    if k < open {
        assert(name[k] == '(');
    }
    assert(k == open);
    closes_at(rest, open + 1, close);
    assert(closing_from(rest, open, 0) == closing_from(rest, open + 1, 1));
    assert(rest.take(open) =~= name);
    assert(rest.subrange(open + 1, close) =~= params);
    assert(rest.skip(close + 1) =~= tail);
}

proof fn name_ends_before(s: Seq<char>, end: int, i: int)
    requires
        0 <= i <= end < s.len(),
        s[end] == '(',
        forall|k: int| i <= k < end ==> #[trigger] s[k] != '(' && !white_space(s[k]),
    ensures
        name_end_from(s, i) == end,
    decreases end - i,
{
    if i < end {
        assert(s[i] != '(');
        name_ends_before(s, end, i + 1);
    }
}

proof fn closes_at(s: Seq<char>, i: int, close: int)
    requires
        0 <= i <= close < s.len(),
        s[close] == ')',
        forall|k: int| i <= k < close ==> #[trigger] s[k] != '(' && s[k] != ')',
    ensures
        closing_from(s, i, 1) == Some(close),
    decreases close - i,
{
    if i < close {
        assert(s[i] != '(');
        closes_at(s, i + 1, close);
    }
}

} // verus!
