//! What the source collectors read out of Rust text: the token stream the
//! duplicate search compares (lexed with `proc-macro2`) and the functions
//! the size collector measures (parsed with `syn`).

use vstd::prelude::*;
use proc_macro2::{Delimiter, Spacing, TokenStream};
use proc_macro2::TokenTree::{Group, Ident, Literal, Punct};
use syn::spanned::Spanned;
use crate::collector::duplicates::TokenInfo;
use crate::collector::size::{span_lines, FunctionInfo};
use crate::text::{push_str, str_chars, string_from_chars};

verus! {

// ------------------------------------------------------------------------------------------------
// Tokens
// ------------------------------------------------------------------------------------------------

/// The delimiter of a group of tokens; `Invisible` groups have none.
#[derive(Debug, Clone, Copy, PartialEq, Eq, Structural)]
pub enum Delim {
    Paren,
    Brace,
    Bracket,
    Invisible,
}

/// A token as the lexer hands it over, with its line (1-indexed): a group
/// is its opening delimiter, its tokens and its closing delimiter.  A
/// punctuation character is `joint` when it is glued to the one after it.
#[derive(Debug, Clone)]
pub enum RawToken {
    Open(Delim, usize),
    Close(Delim, usize),
    Ident(String, usize),
    Punct(char, bool, usize),
    Literal(String, usize),
}

#[verifier::external_type_specification]
#[verifier::external_body]
pub struct ExTokenStream(TokenStream);

#[verifier::external_type_specification]
#[verifier::external_body]
pub struct ExDelimiter(Delimiter);

#[verifier::external_type_specification]
#[verifier::external_body]
pub struct ExSpacing(Spacing);

/// The tokens `proc-macro2` lexes from a text (groups flattened into their
/// delimiters and contents, in source order), or `None` when the text does
/// not lex.
pub uninterp spec fn lexed_tokens(content: Seq<char>) -> Option<Seq<RawToken>>;

/// The library's form of a `proc_macro2::Delimiter`, one variant each.
#[verifier::external_body]
fn delim_of(d: Delimiter) -> Delim {
    match d {
        Delimiter::Parenthesis => Delim::Paren,
        Delimiter::Brace => Delim::Brace,
        Delimiter::Bracket => Delim::Bracket,
        Delimiter::None => Delim::Invisible,
    }
}

/// Whether a `proc_macro2::Spacing` is `Joint`, one variant each.
#[verifier::external_body]
fn is_joint(s: Spacing) -> bool {
    match s {
        Spacing::Joint => true,
        Spacing::Alone => false,
    }
}

/// Appends the tokens of a `proc_macro2::TokenStream` to `out`, each token
/// tree for its own: a group as its opening delimiter (at the line of its
/// opening span's start), its contents and its closing delimiter (at the
/// line of its closing span's end).  Nothing is stated of it: `lex_source`,
/// its one caller, states what the two make of a text.
#[verifier::external_body]
fn flatten_stream(stream: TokenStream, out: &mut Vec<RawToken>) {
    for token in stream {
        match token {
            Group(g) => {
                let d = delim_of(g.delimiter());
                out.push(RawToken::Open(d, g.span_open().start().line));
                flatten_stream(g.stream(), out);
                out.push(RawToken::Close(d, g.span_close().end().line));
            },
            Ident(i) => out.push(RawToken::Ident(i.to_string(), i.span().start().line)),
            Punct(p) => out.push(RawToken::Punct(p.as_char(), is_joint(p.spacing()), p.span().start().line)),
            Literal(l) => out.push(RawToken::Literal(l.to_string(), l.span().start().line)),
        }
    }
}

/// `content.parse::<proc_macro2::TokenStream>()`, flattened: the tokens are
/// named by the text they were lexed from (`lexed_tokens`).
#[verifier::external_body]
fn lex_source(content: &str) -> (r: Option<Vec<RawToken>>)
    ensures
        match r {
            Some(v) => lexed_tokens(content@) == Some(v@),
            None => lexed_tokens(content@) is None,
        },
{
    let stream = content.parse::<TokenStream>().ok()?;
    let mut out = Vec::new();
    flatten_stream(stream, &mut out);
    Some(out)
}

/// The text of a delimiter token, opening or closing; empty for an
/// invisible group.
pub open spec fn delim_text(d: Delim, open: bool) -> Seq<char> {
    match d {
        Delim::Paren => if open { "("@ } else { ")"@ },
        Delim::Brace => if open { "{"@ } else { "}"@ },
        Delim::Bracket => if open { "["@ } else { "]"@ },
        Delim::Invisible => Seq::empty(),
    }
}

/// The normalized text and line of a raw token; `None` for the delimiters
/// of an invisible group, which stand for no token.  An identifier is
/// `ident:<name>`, a punctuation character `punct:<c>:Joint` or
/// `punct:<c>:Alone`, a literal `literal:<text>`.
pub open spec fn normalized_token(t: RawToken) -> Option<(Seq<char>, usize)> {
    match t {
        RawToken::Open(d, line) => if d == Delim::Invisible { None } else { Some((delim_text(d, true), line)) },
        RawToken::Close(d, line) => if d == Delim::Invisible { None } else { Some((delim_text(d, false), line)) },
        RawToken::Ident(name, line) => Some(("ident:"@ + name@, line)),
        RawToken::Punct(c, joint, line) => Some(
            ("punct:"@ + seq![c] + ":"@ + if joint { "Joint"@ } else { "Alone"@ }, line),
        ),
        RawToken::Literal(text, line) => Some(("literal:"@ + text@, line)),
    }
}

/// The normalized tokens of a raw token sequence, in order.
pub open spec fn normalized_tokens(raw: Seq<RawToken>) -> Seq<(Seq<char>, usize)>
    decreases raw.len(),
{
    if raw.len() == 0 {
        Seq::empty()
    } else {
        normalized_tokens(raw.drop_last()) + match normalized_token(raw.last()) {
            Some(t) => seq![t],
            None => Seq::empty(),
        }
    }
}

/// `tokens` are the normalized tokens `expected`, each line cut to 32 bits.
pub open spec fn tokens_are(tokens: Seq<TokenInfo>, expected: Seq<(Seq<char>, usize)>) -> bool {
    &&& tokens.len() == expected.len()
    &&& forall|i: int| 0 <= i < tokens.len() ==> {
        &&& (#[trigger] tokens[i]).normalized@ == expected[i].0
        &&& tokens[i].line == expected[i].1 as u32
    }
}

/// The normalized text of one raw token, or `None` where it stands for no
/// token.
fn normalize_token(t: &RawToken) -> (r: Option<(String, usize)>)
    ensures
        match normalized_token(*t) {
            None => r is None,
            Some((text, line)) => r matches Some((s, l)) && s@ == text && l == line,
        },
{
    match t {
        RawToken::Open(d, line) => match d {
            Delim::Paren => Some((string_from_chars(&str_chars("(")), *line)),
            Delim::Brace => Some((string_from_chars(&str_chars("{")), *line)),
            Delim::Bracket => Some((string_from_chars(&str_chars("[")), *line)),
            Delim::Invisible => None,
        },
        RawToken::Close(d, line) => match d {
            Delim::Paren => Some((string_from_chars(&str_chars(")")), *line)),
            Delim::Brace => Some((string_from_chars(&str_chars("}")), *line)),
            Delim::Bracket => Some((string_from_chars(&str_chars("]")), *line)),
            Delim::Invisible => None,
        },
        RawToken::Ident(name, line) => {
            let mut v: Vec<char> = Vec::new();
            push_str(&mut v, "ident:");
            push_str(&mut v, name.as_str());
            Some((string_from_chars(&v), *line))
        },
        RawToken::Punct(c, joint, line) => {
            let mut v: Vec<char> = Vec::new();
            push_str(&mut v, "punct:");
            v.push(*c);
            push_str(&mut v, ":");
            if *joint {
                push_str(&mut v, "Joint");
            } else {
                push_str(&mut v, "Alone");
            }
            Some((string_from_chars(&v), *line))
        },
        RawToken::Literal(text, line) => {
            let mut v: Vec<char> = Vec::new();
            push_str(&mut v, "literal:");
            push_str(&mut v, text.as_str());
            Some((string_from_chars(&v), *line))
        },
    }
}

/// The tokens the duplicate search compares, from the raw tokens of a text:
/// each normalized (`normalized_tokens`), the delimiters of invisible groups
/// left out, lines cut to 32 bits.
pub fn normalize_tokens(raw: &Vec<RawToken>) -> (r: Vec<TokenInfo>)
    ensures
        tokens_are(r@, normalized_tokens(raw@)),
{
    let mut out: Vec<TokenInfo> = Vec::new();
    let mut i: usize = 0;
    proof {
        assert(raw@.take(0) =~= Seq::<RawToken>::empty());
    }
    while i < raw.len()
        invariant
            i <= raw.len(),
            tokens_are(out@, normalized_tokens(raw@.take(i as int))),
        decreases raw.len() - i,
    {
        proof {
            assert(raw@.take(i + 1).drop_last() =~= raw@.take(i as int));
            assert(raw@.take(i + 1).last() == raw@[i as int]);
        }
        let ghost before = out@;
        match normalize_token(&raw[i]) {
            Some((text, line)) => {
                let l: u32 = line as u32;
                out.push(TokenInfo { normalized: text, line: l });
                proof {
                    let e = normalized_tokens(raw@.take(i + 1));
                    assert forall|k: int| 0 <= k < out@.len() implies {
                        &&& (#[trigger] out@[k]).normalized@ == e[k].0
                        &&& out@[k].line == e[k].1 as u32
                    } by {
                        if k < before.len() {
                            assert(out@[k] == before[k]);
                        }
                    }
                }
            },
            None => {},
        }
        i = i + 1;
    }
    proof {
        assert(raw@.take(raw@.len() as int) =~= raw@);
    }
    out
}

/// The tokens of a source text, groups opened and closed by their
/// delimiters, as the duplicate search compares them; none when the text
/// does not lex.
pub fn tokenize_source(content: &str) -> (r: Vec<TokenInfo>)
    ensures
        match lexed_tokens(content@) {
            None => r@.len() == 0,
            Some(raw) => tokens_are(r@, normalized_tokens(raw)),
        },
{
    match lex_source(content) {
        Some(raw) => normalize_tokens(&raw),
        None => Vec::new(),
    }
}

// ------------------------------------------------------------------------------------------------
// Functions
// ------------------------------------------------------------------------------------------------

/// A function item of a parsed file: whether it is a method of an impl
/// block, its name, its first and last lines (1-indexed) and its number of
/// parameters (`self` included).
#[derive(Debug, Clone)]
pub struct FnItem {
    pub method: bool,
    pub name: String,
    pub start_line: usize,
    pub end_line: usize,
    pub param_count: usize,
}

#[verifier::external_type_specification]
#[verifier::external_body]
pub struct ExSignature(syn::Signature);

#[verifier::external_type_specification]
#[verifier::external_body]
pub struct ExSpan(proc_macro2::Span);

/// An entry of a parsed file: a function (a free function, or a method of
/// an impl block), or anything else.
#[derive(Debug, Clone)]
pub enum SynEntry {
    Fn(FnItem),
    Other,
}

#[verifier::external_type_specification]
#[verifier::external_body]
pub struct ExImplItem(syn::ImplItem);

/// The entries `syn::parse_file` finds in a text, in file order: one per
/// item of the file, except that an impl block (`Item::Impl`) gives one per
/// member, in the block's order; `None` when the text does not parse.
pub uninterp spec fn syn_entries(content: Seq<char>) -> Option<Seq<SynEntry>>;

/// The library's form of a function's signature and span.
#[verifier::external_body]
fn fn_item(method: bool, sig: &syn::Signature, span: proc_macro2::Span) -> FnItem {
    FnItem {
        method,
        name: sig.ident.to_string(),
        start_line: span.start().line,
        end_line: span.end().line,
        param_count: sig.inputs.len(),
    }
}

/// The library's form of a member of an impl block, one arm per kind.
#[verifier::external_body]
fn member_entry(member: &syn::ImplItem) -> SynEntry {
    match member {
        syn::ImplItem::Fn(f) => SynEntry::Fn(fn_item(true, &f.sig, f.span())),
        _ => SynEntry::Other,
    }
}

/// `syn::parse_file(content)`, each item converted to an entry (an impl
/// block through its members): the entries are named by the text they were
/// parsed from (`syn_entries`).
#[verifier::external_body]
fn parse_entries(content: &str) -> (r: Option<Vec<SynEntry>>)
    ensures
        match r {
            Some(v) => syn_entries(content@) == Some(v@),
            None => syn_entries(content@) is None,
        },
{
    let file = syn::parse_file(content).ok()?;
    let mut out = Vec::new();
    for item in &file.items {
        match item {
            syn::Item::Fn(f) => out.push(SynEntry::Fn(fn_item(false, &f.sig, f.span()))),
            syn::Item::Impl(block) => for member in &block.items {
                out.push(member_entry(member));
            },
            _ => out.push(SynEntry::Other),
        }
    }
    Some(out)
}

/// The functions among the entries `es`, in order.
pub open spec fn fns_of(es: Seq<SynEntry>) -> Seq<FnItem>
    decreases es.len(),
{
    if es.len() == 0 {
        Seq::empty()
    } else {
        fns_of(es.drop_last()) + match es.last() {
            SynEntry::Fn(f) => seq![f],
            SynEntry::Other => Seq::empty(),
        }
    }
}

/// The function items of a text: the functions among its entries; `None`
/// when it does not parse.
pub open spec fn syn_fn_items(content: Seq<char>) -> Option<Seq<FnItem>> {
    match syn_entries(content) {
        None => None,
        Some(es) => Some(fns_of(es)),
    }
}

/// The function items of a text, in file order: its free functions and the
/// methods of its impl blocks; `None` when it does not parse.
pub fn parsed_fn_items(content: &str) -> (r: Option<Vec<FnItem>>)
    ensures
        match syn_entries(content@) {
            None => r is None,
            Some(es) => r matches Some(v) && v@ == fns_of(es),
        },
{
    let es = match parse_entries(content) {
        None => return None,
        Some(es) => es,
    };
    let mut out: Vec<FnItem> = Vec::new();
    let mut i: usize = 0;
    proof {
        assert(es@.take(0) =~= Seq::<SynEntry>::empty());
    }
    while i < es.len()
        invariant
            i <= es.len(),
            out@ == fns_of(es@.take(i as int)),
        decreases es.len() - i,
    {
        proof {
            assert(es@.take(i + 1).drop_last() =~= es@.take(i as int));
            assert(es@.take(i + 1).last() == es@[i as int]);
        }
        match &es[i] {
            SynEntry::Fn(f) => {
                out.push(FnItem {
                    method: f.method,
                    name: f.name.clone(),
                    start_line: f.start_line,
                    end_line: f.end_line,
                    param_count: f.param_count,
                });
                proof {
                    assert(out@ =~= fns_of(es@.take(i + 1)));
                }
            },
            SynEntry::Other => {
                proof {
                    assert(out@ =~= fns_of(es@.take(i + 1)));
                }
            },
        }
        i = i + 1;
    }
    proof {
        assert(es@.take(es@.len() as int) =~= es@);
    }
    Some(out)
}

/// The items of `items` that are free functions (`method == false`), or
/// that are methods (`method == true`), in order.
pub open spec fn items_of_kind(items: Seq<FnItem>, method: bool) -> Seq<FnItem>
    decreases items.len(),
{
    if items.len() == 0 {
        Seq::empty()
    } else {
        items_of_kind(items.drop_last(), method) + if items.last().method == method {
            seq![items.last()]
        } else {
            Seq::empty()
        }
    }
}

/// The order in which the size collector measures functions: the free
/// functions first, then the methods, each in file order.
pub open spec fn measured_order(items: Seq<FnItem>) -> Seq<FnItem> {
    items_of_kind(items, false) + items_of_kind(items, true)
}

/// The span of an item fits: its length in lines, from its lines cut to
/// 32 bits, is a 32-bit number.
pub open spec fn item_fits(it: FnItem) -> bool {
    span_lines(it.start_line as u32, it.end_line as u32) <= u32::MAX
}

pub open spec fn all_items_fit(items: Seq<FnItem>) -> bool {
    forall|i: int| 0 <= i < items.len() ==> item_fits(#[trigger] items[i])
}

/// `f` is the measurement of item `it` of the file named `file`.
pub open spec fn function_of(f: FunctionInfo, it: FnItem, file: Seq<char>) -> bool {
    &&& f.name@ == it.name@
    &&& f.file@ == file
    &&& f.start_line == it.start_line as u32
    &&& f.end_line == it.end_line as u32
    &&& f.total_lines == span_lines(it.start_line as u32, it.end_line as u32)
    &&& f.param_count == it.param_count
}

/// `fs` are the measurements of `items`, one for one.
pub open spec fn functions_of(fs: Seq<FunctionInfo>, items: Seq<FnItem>, file: Seq<char>) -> bool {
    &&& fs.len() == items.len()
    &&& forall|i: int| 0 <= i < fs.len() ==> function_of(#[trigger] fs[i], items[i], file)
}

proof fn lemma_items_of_kind_fit(items: Seq<FnItem>, method: bool)
    requires
        all_items_fit(items),
    ensures
        all_items_fit(items_of_kind(items, method)),
    decreases items.len(),
{
    if items.len() > 0 {
        lemma_items_of_kind_fit(items.drop_last(), method);
        let a = items_of_kind(items.drop_last(), method);
        let b = items_of_kind(items, method);
        assert forall|i: int| 0 <= i < b.len() implies item_fits(#[trigger] b[i]) by {
            if i < a.len() {
                assert(b[i] == a[i]);
            } else {
                assert(b[i] == items.last());
                assert(item_fits(items[items.len() - 1]));
            }
        }
    }
}

/// Appends to `out` the measurements of the items of `items` of the given
/// kind, in order.
fn push_functions_of_kind(out: &mut Vec<FunctionInfo>, items: &Vec<FnItem>, method: bool, file_name: &str)
    requires
        all_items_fit(items@),
    ensures
        final(out)@.len() == old(out)@.len() + items_of_kind(items@, method).len(),
        forall|i: int| 0 <= i < old(out)@.len() ==> #[trigger] final(out)@[i] == old(out)@[i],
        forall|i: int| 0 <= i < items_of_kind(items@, method).len() ==> function_of(
            #[trigger] final(out)@[old(out)@.len() + i],
            items_of_kind(items@, method)[i],
            file_name@,
        ),
{
    let ghost start = old(out)@;
    let mut i: usize = 0;
    proof {
        assert(items@.take(0) =~= Seq::<FnItem>::empty());
    }
    while i < items.len()
        invariant
            i <= items.len(),
            all_items_fit(items@),
            out@.len() == start.len() + items_of_kind(items@.take(i as int), method).len(),
            forall|k: int| 0 <= k < start.len() ==> #[trigger] out@[k] == start[k],
            forall|k: int| 0 <= k < items_of_kind(items@.take(i as int), method).len() ==> function_of(
                #[trigger] out@[start.len() + k],
                items_of_kind(items@.take(i as int), method)[k],
                file_name@,
            ),
        decreases items.len() - i,
    {
        proof {
            assert(items@.take(i + 1).drop_last() =~= items@.take(i as int));
            assert(items@.take(i + 1).last() == items@[i as int]);
        }
        let ghost before = out@;
        let ghost prev = items_of_kind(items@.take(i as int), method);
        let it = &items[i];
        if it.method == method {
            proof {
                assert(item_fits(items@[i as int]));
            }
            #[verifier::truncate]
            let start_line: u32 = it.start_line as u32;
            #[verifier::truncate]
            let end_line: u32 = it.end_line as u32;
            let f = FunctionInfo::from_span(
                it.name.clone(),
                string_from_chars(&str_chars(file_name)),
                start_line,
                end_line,
                it.param_count,
            );
            out.push(f);
            proof {
                let now = items_of_kind(items@.take(i + 1), method);
                assert(now == prev.push(items@[i as int]));
                assert forall|k: int| 0 <= k < now.len() implies function_of(
                    #[trigger] out@[start.len() + k],
                    now[k],
                    file_name@,
                ) by {
                    if k < prev.len() {
                        assert(out@[start.len() + k] == before[start.len() + k]);
                    }
                }
            }
        } else {
            proof {
                assert(items_of_kind(items@.take(i + 1), method) =~= prev);
            }
        }
        i = i + 1;
    }
    proof {
        assert(items@.take(items@.len() as int) =~= items@);
    }
}

/// The functions of a file named `file_name`, measured from its function
/// items: the free functions first, then the methods, each in file order.
pub fn extract_functions_from(items: &Vec<FnItem>, file_name: &str) -> (r: Vec<FunctionInfo>)
    requires
        all_items_fit(items@),
    ensures
        functions_of(r@, measured_order(items@), file_name@),
{
    let mut out: Vec<FunctionInfo> = Vec::new();
    push_functions_of_kind(&mut out, items, false, file_name);
    let ghost first = out@;
    push_functions_of_kind(&mut out, items, true, file_name);
    proof {
        let free = items_of_kind(items@, false);
        let methods = items_of_kind(items@, true);
        let order = measured_order(items@);
        assert(first.len() == free.len());
        assert forall|i: int| 0 <= i < out@.len() implies function_of(#[trigger] out@[i], order[i], file_name@) by {
            if i < free.len() {
                assert(order[i] == free[i]);
                assert(out@[i] == first[i]);
                assert(function_of(first[0 + i], free[i], file_name@));
            } else {
                let j = i - free.len();
                assert(order[i] == methods[j]);
                assert(function_of(out@[first.len() + j], methods[j], file_name@));
            }
        }
    }
    out
}

/// Whether every item's span fits in 32 bits.
fn items_fit(items: &Vec<FnItem>) -> (r: bool)
    ensures
        r == all_items_fit(items@),
{
    let mut i: usize = 0;
    while i < items.len()
        invariant
            i <= items.len(),
            forall|k: int| 0 <= k < i ==> item_fits(#[trigger] items@[k]),
        decreases items.len() - i,
    {
        #[verifier::truncate]
        let s: u32 = items[i].start_line as u32;
        #[verifier::truncate]
        let e: u32 = items[i].end_line as u32;
        if s == 0 && e == u32::MAX {
            return false;
        }
        i = i + 1;
    }
    true
}

/// The functions of a source file named `file_name`, for the size
/// collector: none when the text does not parse; `None` when a function's
/// length in lines does not fit in 32 bits.
pub fn extract_functions(content: &str, file_name: &str) -> (r: Option<Vec<FunctionInfo>>)
    ensures
        match syn_fn_items(content@) {
            None => r matches Some(fs) && fs@.len() == 0,
            Some(items) => if all_items_fit(items) {
                r matches Some(fs) && functions_of(fs@, measured_order(items), file_name@)
            } else {
                r is None
            },
        },
{
    match parsed_fn_items(content) {
        None => Some(Vec::new()),
        Some(items) => if items_fit(&items) {
            Some(extract_functions_from(&items, file_name))
        } else {
            None
        },
    }
}

} // verus!
