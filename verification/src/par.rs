//! Rholang processes as a node returns them, and their rendering as text.

use crate::hexadecimal::{encode, hex_chars};
use crate::text::{
    bool_chars, bool_text, decimal_value, integer_text, join, joined, lemma_joined_in_two,
    lemma_signed_decimal_reads_back, signed_decimal,
};
use vstd::prelude::*;

verus! {

/// A Rholang process: the parallel composition of its parts, as far as the rendering looks at
/// them.
#[derive(Debug)]
pub struct Par {
    pub exprs: Vec<Expr>,
    pub unforgeables: Vec<GUnforgeable>,
    /// How many sends the process has.
    pub sends: usize,
    /// How many receives the process has.
    pub receives: usize,
    /// How many `new` declarations the process has.
    pub news: usize,
    /// The process as its wire type shows it for debugging.
    pub debug: String,
}

/// An expression.
#[derive(Debug)]
pub struct Expr {
    pub expr_instance: Option<ExprInstance>,
}

/// What an expression is.
#[derive(Debug)]
pub enum ExprInstance {
    GString(String),
    GUri(String),
    GInt(i64),
    GBool(bool),
    GByteArray(Vec<u8>),
    EListBody(Vec<Par>),
    ETupleBody(Vec<Par>),
    EMapBody(Vec<KeyValuePair>),
    /// Any other expression, as its wire type shows it for debugging.
    Other(String),
}

/// An entry of a map.
#[derive(Debug)]
pub struct KeyValuePair {
    pub key: Option<Par>,
    pub value: Option<Par>,
}

/// An unforgeable name.
#[derive(Debug)]
pub struct GUnforgeable {
    pub unf_instance: Option<UnfInstance>,
    /// The name as its wire type shows it for debugging.
    pub debug: String,
}

/// What an unforgeable name is.
#[derive(Debug)]
pub enum UnfInstance {
    /// The channel of a deploy, by the deploy's signature.
    GDeployIdBody(Vec<u8>),
    /// A private name, by its identifier.
    GPrivateBody(Vec<u8>),
    Other,
}

/// The rendering of a process, where it has one: its first expression, else its first
/// unforgeable name, else the kind of its first part.
pub open spec fn par_chars(par: Par) -> Option<Seq<char>>
    decreases par,
{
    if par.exprs@.len() > 0 && par.exprs@[0].expr_instance is Some {
        Some(expr_chars(par.exprs@[0].expr_instance->0))
    } else if par.unforgeables@.len() > 0 {
        Some(unforgeable_chars(par.unforgeables@[0]))
    } else if par.sends > 0 {
        Some("Send operation"@)
    } else if par.receives > 0 {
        Some("Receive operation"@)
    } else if par.news > 0 {
        Some("New declaration"@)
    } else {
        None
    }
}

/// The rendering of an expression.
pub open spec fn expr_chars(instance: ExprInstance) -> Seq<char>
    decreases instance,
{
    match instance {
        ExprInstance::GString(s) => "\""@ + s@ + "\""@,
        ExprInstance::GUri(u) => "`"@ + u@ + "`"@,
        ExprInstance::GInt(i) => signed_decimal(i as int),
        ExprInstance::GBool(b) => bool_chars(b),
        ExprInstance::GByteArray(bytes) => "0x"@ + hex_chars(bytes@),
        ExprInstance::EListBody(ps) => "["@ + joined(items_chars(ps@, ps@.len()), ", "@) + "]"@,
        ExprInstance::ETupleBody(ps) => "("@ + joined(items_chars(ps@, ps@.len()), ", "@) + ")"@,
        ExprInstance::EMapBody(kvs) => "{"@ + joined(entries_chars(kvs@, kvs@.len()), ", "@)
            + "}"@,
        ExprInstance::Other(debug) => debug@,
    }
}

/// The renderings of the first `n` items of a list or a tuple. An item without a rendering is
/// shown as for debugging.
pub open spec fn items_chars(ps: Seq<Par>, n: nat) -> Seq<Seq<char>>
    decreases ps, n,
{
    if n == 0 || n > ps.len() {
        seq![]
    } else {
        let p = ps[n - 1];
        items_chars(ps, (n - 1) as nat).push(
            match par_chars(p) {
                Some(chars) => chars,
                None => p.debug@,
            },
        )
    }
}

/// The renderings of the first `n` entries of a map.
pub open spec fn entries_chars(kvs: Seq<KeyValuePair>, n: nat) -> Seq<Seq<char>>
    decreases kvs, n,
{
    if n == 0 || n > kvs.len() {
        seq![]
    } else {
        let kv = kvs[n - 1];
        entries_chars(kvs, (n - 1) as nat).push(part_chars(kv.key) + ": "@ + part_chars(kv.value))
    }
}

/// The rendering of a key or a value of a map; a question mark where it has none.
pub open spec fn part_chars(part: Option<Par>) -> Seq<char>
    decreases part,
{
    match part {
        Some(par) => match par_chars(par) {
            Some(chars) => chars,
            None => "?"@,
        },
        None => "?"@,
    }
}

/// The rendering of an unforgeable name.
pub open spec fn unforgeable_chars(name: GUnforgeable) -> Seq<char> {
    match name.unf_instance {
        Some(UnfInstance::GDeployIdBody(sig)) => "DeployId("@ + hex_chars(sig@) + ")"@,
        Some(UnfInstance::GPrivateBody(id)) => "GPrivate("@ + hex_chars(id@) + ")"@,
        _ => name.debug@,
    }
}

/// Renders a process.
pub fn extract_par_data(par: &Par) -> (res: Option<String>)
    ensures
        res.deep_view() == par_chars(*par),
    decreases *par,
{
    if par.exprs.len() > 0 && par.exprs[0].expr_instance.is_some() {
        let instance = par.exprs[0].expr_instance.as_ref().unwrap();
        Some(expr_text(instance))
    } else if par.unforgeables.len() > 0 {
        Some(unforgeable_text(&par.unforgeables[0]))
    } else if par.sends > 0 {
        Some("Send operation".to_string())
    } else if par.receives > 0 {
        Some("Receive operation".to_string())
    } else if par.news > 0 {
        Some("New declaration".to_string())
    } else {
        None
    }
}

/// Renders an expression.
fn expr_text(instance: &ExprInstance) -> (res: String)
    ensures
        res@ == expr_chars(*instance),
    decreases *instance,
{
    match instance {
        ExprInstance::GString(s) => enclosed("\"", s.as_str(), "\""),
        ExprInstance::GUri(u) => enclosed("`", u.as_str(), "`"),
        ExprInstance::GInt(i) => integer_text(*i),
        ExprInstance::GBool(b) => bool_text(*b),
        ExprInstance::GByteArray(bytes) => {
            let mut res = "0x".to_string();
            res.append(encode(bytes).as_str());
            res
        },
        ExprInstance::EListBody(ps) => {
            let items = items_text(ps);
            enclosed("[", join(&items, ", ").as_str(), "]")
        },
        ExprInstance::ETupleBody(ps) => {
            let items = items_text(ps);
            enclosed("(", join(&items, ", ").as_str(), ")")
        },
        ExprInstance::EMapBody(kvs) => {
            let items = entries_text(kvs);
            enclosed("{", join(&items, ", ").as_str(), "}")
        },
        ExprInstance::Other(debug) => debug.clone(),
    }
}

/// Renders the items of a list or a tuple.
pub fn items_text(ps: &Vec<Par>) -> (res: Vec<String>)
    ensures
        res.deep_view() == items_chars(ps@, ps@.len()),
    decreases ps@, ps@.len() + 1,
{
    let mut res: Vec<String> = Vec::new();
    assert(res.deep_view() =~= items_chars(ps@, 0));
    for i in 0..ps.len()
        invariant
            res.deep_view() == items_chars(ps@, i as nat),
    {
        let ghost before = res.deep_view();
        let item = match extract_par_data(&ps[i]) {
            Some(text) => text,
            None => ps[i].debug.clone(),
        };
        res.push(item);
        assert(res.deep_view() =~= before.push(item@));
    }
    res
}

/// Renders the entries of a map.
fn entries_text(kvs: &Vec<KeyValuePair>) -> (res: Vec<String>)
    ensures
        res.deep_view() == entries_chars(kvs@, kvs@.len()),
    decreases kvs@, kvs@.len() + 1,
{
    let mut res: Vec<String> = Vec::new();
    assert(res.deep_view() =~= entries_chars(kvs@, 0));
    for i in 0..kvs.len()
        invariant
            res.deep_view() == entries_chars(kvs@, i as nat),
    {
        let ghost before = res.deep_view();
        let mut item = part_text(&kvs[i].key);
        item.append(": ");
        item.append(part_text(&kvs[i].value).as_str());
        res.push(item);
        assert(res.deep_view() =~= before.push(item@));
    }
    res
}

/// Renders a key or a value of a map.
fn part_text(part: &Option<Par>) -> (res: String)
    ensures
        res@ == part_chars(*part),
    decreases *part,
{
    match part {
        Some(par) => match extract_par_data(par) {
            Some(text) => text,
            None => "?".to_string(),
        },
        None => "?".to_string(),
    }
}

/// Renders an unforgeable name.
fn unforgeable_text(name: &GUnforgeable) -> (res: String)
    ensures
        res@ == unforgeable_chars(*name),
{
    match &name.unf_instance {
        Some(UnfInstance::GDeployIdBody(sig)) => enclosed("DeployId(", encode(sig).as_str(), ")"),
        Some(UnfInstance::GPrivateBody(id)) => enclosed("GPrivate(", encode(id).as_str(), ")"),
        _ => name.debug.clone(),
    }
}

/// Puts a text between two others.
fn enclosed(opening: &str, inner: &str, closing: &str) -> (res: String)
    ensures
        res@ == opening@ + inner@ + closing@,
{
    let mut res = opening.to_string();
    res.append(inner);
    res.append(closing);
    res
}

/// A process has no rendering exactly where it has neither an expression that leads, nor an
/// unforgeable name, nor a send, a receive or a `new` declaration.
pub proof fn lemma_rendering_is_missing_only_of_nothing(par: Par)
    ensures
        par_chars(par) is None <==> {
            &&& (par.exprs@.len() == 0 || par.exprs@[0].expr_instance is None)
            &&& par.unforgeables@.len() == 0
            &&& par.sends == 0
            &&& par.receives == 0
            &&& par.news == 0
        },
{
}

/// The renderings of a list keep the order and the number of its items.
pub proof fn lemma_items_are_rendered_in_order(ps: Seq<Par>, n: nat)
    requires
        n <= ps.len(),
    ensures
        items_chars(ps, n).len() == n,
        forall|i: int|
            0 <= i < n ==> #[trigger] items_chars(ps, n)[i] == (match par_chars(ps[i]) {
                Some(chars) => chars,
                None => ps[i].debug@,
            }),
    decreases n,
{
    if n > 0 {
        lemma_items_are_rendered_in_order(ps, (n - 1) as nat);
    }
}

/// What a process is rendered as where its first expression leads: nothing else of the process
/// matters.
pub proof fn lemma_first_expression_leads(a: Par, b: Par)
    requires
        a.exprs@.len() > 0,
        a.exprs@[0].expr_instance is Some,
        b.exprs@.len() > 0,
        b.exprs@[0].expr_instance == a.exprs@[0].expr_instance,
    ensures
        par_chars(a) is Some,
        par_chars(a) == par_chars(b),
{
}

/// A text is rendered between double quotes, a URI between backquotes, an integer in decimal, a
/// truth value in words, and bytes in hexadecimal after `0x`.
pub proof fn lemma_plain_expression_is_rendered(par: Par)
    requires
        par.exprs@.len() > 0,
    ensures
        par.exprs@[0].expr_instance matches Some(ExprInstance::GString(s)) ==> par_chars(par)
            == Some("\""@ + s@ + "\""@),
        par.exprs@[0].expr_instance matches Some(ExprInstance::GUri(u)) ==> par_chars(par) == Some(
            "`"@ + u@ + "`"@,
        ),
        par.exprs@[0].expr_instance matches Some(ExprInstance::GInt(i)) ==> {
            &&& par_chars(par) is Some
            &&& par_chars(par)->0.len() > 0
            &&& i >= 0 ==> decimal_value(par_chars(par)->0) == i
            &&& i < 0 ==> par_chars(par)->0[0] == '-' && decimal_value(par_chars(par)->0.skip(1))
                == -i
            &&& par_chars(par)->0 == signed_decimal(i as int)
        },
        par.exprs@[0].expr_instance == Some(ExprInstance::GBool(true)) ==> par_chars(par) == Some(
            "true"@,
        ),
        par.exprs@[0].expr_instance == Some(ExprInstance::GBool(false)) ==> par_chars(par) == Some(
            "false"@,
        ),
        par.exprs@[0].expr_instance matches Some(ExprInstance::GByteArray(bytes)) ==> par_chars(par)
            == Some("0x"@ + hex_chars(bytes@)),
        par.exprs@[0].expr_instance matches Some(ExprInstance::Other(debug)) ==> par_chars(par)
            == Some(debug@),
{
    match par.exprs@[0].expr_instance {
        Some(ExprInstance::GInt(i)) => {
            lemma_signed_decimal_reads_back(i as int);
        },
        _ => {},
    }
}

/// Whether a text is the one that an item of a collection is shown by: its rendering or, where it
/// has none, its debugging form.
pub open spec fn shows_item(text: Seq<char>, item: Par) -> bool {
    (par_chars(item) is Some && par_chars(item)->0 == text) || (par_chars(item) is None && text
        == item.debug@)
}

/// A list is rendered as the texts of its items, in order and each once, with a comma and a space
/// between each two, in square brackets; a tuple likewise, in round brackets.
pub proof fn lemma_collection_is_rendered(par: Par, ps: Vec<Par>, texts: Seq<Seq<char>>)
    requires
        par.exprs@.len() > 0,
        texts.len() == ps@.len(),
        forall|i: int| 0 <= i < texts.len() ==> shows_item(#[trigger] texts[i], ps@[i]),
    ensures
        par.exprs@[0].expr_instance == Some(ExprInstance::EListBody(ps)) ==> par_chars(par) == Some(
            "["@ + joined(texts, ", "@) + "]"@,
        ),
        par.exprs@[0].expr_instance == Some(ExprInstance::ETupleBody(ps)) ==> par_chars(par)
            == Some("("@ + joined(texts, ", "@) + ")"@),
{
    lemma_items_are_rendered_in_order(ps@, ps@.len());
    assert forall|i: int| 0 <= i < texts.len() implies texts[i] == items_chars(ps@, ps@.len())[i] by {
        assert(shows_item(texts[i], ps@[i]));
    }
    assert(texts =~= items_chars(ps@, ps@.len()));
}

/// Whether a text is the one that a key or a value of a map is shown by: its rendering, or a
/// question mark where there is none.
pub open spec fn shows_part(text: Seq<char>, part: Option<Par>) -> bool {
    if part is Some && par_chars(part->0) is Some {
        text == par_chars(part->0)->0
    } else {
        text == "?"@
    }
}

/// A map is rendered as its entries, in order and each once, with a comma and a space between each
/// two, in braces; an entry as its key, a colon, a space and its value.
pub proof fn lemma_map_is_rendered(
    par: Par,
    kvs: Vec<KeyValuePair>,
    keys: Seq<Seq<char>>,
    values: Seq<Seq<char>>,
)
    requires
        par.exprs@.len() > 0,
        par.exprs@[0].expr_instance == Some(ExprInstance::EMapBody(kvs)),
        keys.len() == kvs@.len(),
        values.len() == kvs@.len(),
        forall|i: int| 0 <= i < keys.len() ==> shows_part(#[trigger] keys[i], kvs@[i].key),
        forall|i: int| 0 <= i < values.len() ==> shows_part(#[trigger] values[i], kvs@[i].value),
    ensures
        par_chars(par) == Some(
            "{"@ + joined(
                Seq::new(keys.len(), |i: int| keys[i] + ": "@ + values[i]),
                ", "@,
            ) + "}"@,
        ),
{
    let texts = Seq::new(keys.len(), |i: int| keys[i] + ": "@ + values[i]);
    lemma_entries_are_rendered_in_order(kvs@, kvs@.len());
    assert forall|i: int| 0 <= i < texts.len() implies texts[i] == entries_chars(
        kvs@,
        kvs@.len(),
    )[i] by {
        assert(shows_part(keys[i], kvs@[i].key));
        assert(shows_part(values[i], kvs@[i].value));
    }
    assert(texts =~= entries_chars(kvs@, kvs@.len()));
}

/// The renderings of a map keep the order and the number of its entries.
proof fn lemma_entries_are_rendered_in_order(kvs: Seq<KeyValuePair>, n: nat)
    requires
        n <= kvs.len(),
    ensures
        entries_chars(kvs, n).len() == n,
        forall|i: int|
            0 <= i < n ==> #[trigger] entries_chars(kvs, n)[i] == part_chars(kvs[i].key) + ": "@
                + part_chars(kvs[i].value),
    decreases n,
{
    if n > 0 {
        lemma_entries_are_rendered_in_order(kvs, (n - 1) as nat);
    }
}

/// A list of two integers is rendered as the two, in order.
pub proof fn lemma_list_of_two_integers(par: Par, ps: Vec<Par>, a: i64, b: i64)
    requires
        par.exprs@.len() > 0,
        par.exprs@[0].expr_instance == Some(ExprInstance::EListBody(ps)),
        ps@.len() == 2,
        ps@[0].exprs@.len() > 0 && ps@[0].exprs@[0].expr_instance == Some(ExprInstance::GInt(a)),
        ps@[1].exprs@.len() > 0 && ps@[1].exprs@[0].expr_instance == Some(ExprInstance::GInt(b)),
    ensures
        par_chars(par) == Some(
            "["@ + (signed_decimal(a as int) + ", "@ + signed_decimal(b as int)) + "]"@,
        ),
{
    lemma_plain_expression_is_rendered(ps@[0]);
    lemma_plain_expression_is_rendered(ps@[1]);
    let texts = seq![signed_decimal(a as int), signed_decimal(b as int)];
    lemma_collection_is_rendered(par, ps, texts);
    let first = seq![signed_decimal(a as int)];
    let second = seq![signed_decimal(b as int)];
    lemma_joined_in_two(first, second, ", "@);
    lemma_joined_in_two(second, first, ", "@);
    assert(texts =~= first + second);
}

/// Where no expression leads, the first unforgeable name does: the channel of a deploy and a
/// private name are rendered by their bytes in hexadecimal, any other by its debugging form.
/// Without a name, a send comes before a receive and a receive before a `new` declaration.
pub proof fn lemma_other_parts_are_rendered(par: Par)
    requires
        par.exprs@.len() == 0 || par.exprs@[0].expr_instance is None,
    ensures
        par.unforgeables@.len() > 0 ==> {
            let name = par.unforgeables@[0];
            &&& name.unf_instance matches Some(UnfInstance::GDeployIdBody(sig)) ==> par_chars(par)
                == Some("DeployId("@ + hex_chars(sig@) + ")"@)
            &&& name.unf_instance matches Some(UnfInstance::GPrivateBody(id)) ==> par_chars(par)
                == Some("GPrivate("@ + hex_chars(id@) + ")"@)
            &&& name.unf_instance == Some(UnfInstance::Other) ==> par_chars(par) == Some(
                name.debug@,
            )
            &&& name.unf_instance is None ==> par_chars(par) == Some(name.debug@)
        },
        par.unforgeables@.len() == 0 ==> {
            &&& par.sends > 0 ==> par_chars(par) == Some("Send operation"@)
            &&& par.sends == 0 && par.receives > 0 ==> par_chars(par) == Some(
                "Receive operation"@,
            )
            &&& par.sends == 0 && par.receives == 0 && par.news > 0 ==> par_chars(par) == Some(
                "New declaration"@,
            )
            &&& par.sends == 0 && par.receives == 0 && par.news == 0 ==> par_chars(par) is None
        },
{
}

} // verus!
