//! The CQL text `DESCRIBE` gives back for schema objects.
use vstd::prelude::*;
use crate::entries::entry_value;
use crate::chars::{rfind, replace, rfind_exec, replace_exec, lemma_rfind_from_bounds};
use crate::text::{chars_of, push_str, string_from_chars};
use crate::tuples::string_views;
use crate::constraints::{text_less, lemma_text_asymmetric, lemma_text_total, lemma_text_transitive};

verus! {

broadcast use vstd::seq_lib::group_seq_properties;

/// `parts` joined with `sep` between neighbours.
pub open spec fn join(parts: Seq<Seq<char>>, sep: Seq<char>) -> Seq<char>
    decreases parts.len(),
{
    if parts.len() == 0 {
        seq![]
    } else if parts.len() == 1 {
        parts[0]
    } else {
        join(parts.drop_last(), sep) + sep + parts.last()
    }
}

/// `s` with each single quote doubled, as CQL string literals write it.
pub open spec fn escape_quotes(s: Seq<char>) -> Seq<char> {
    replace(s, seq!['\''], seq!['\'', '\''])
}

fn escape_quotes_exec(s: &str) -> (r: String)
    ensures
        r@ == escape_quotes(s@),
{
    let c = chars_of(s);
    let mut q: Vec<char> = Vec::new();
    q.push('\'');
    let mut qq: Vec<char> = Vec::new();
    qq.push('\'');
    qq.push('\'');
    assert(q@ =~= seq!['\'']);
    assert(qq@ =~= seq!['\'', '\'']);
    let out = replace_exec(&c, &q, &qq);
    string_from_chars(&out)
}

/// Appends `parts` joined with `sep` to `out`.
pub(crate) fn push_joined(out: &mut String, parts: &[String], sep: &str)
    ensures
        final(out)@ == old(out)@ + join(string_views(parts@), sep@),
{
    let ghost start = out@;
    let ghost views = string_views(parts@);
    let mut i: usize = 0;
    while i < parts.len()
        invariant
            i <= parts@.len(),
            views == string_views(parts@),
            out@ == start + join(views.subrange(0, i as int), sep@),
        decreases parts.len() - i,
    {
        if i > 0 {
            push_str(out, sep);
        }
        push_str(out, parts[i].as_str());
        proof {
            let pre = views.subrange(0, i + 1);
            assert(pre.drop_last() =~= views.subrange(0, i as int));
            assert(pre.last() == parts@[i as int]@);
            if i == 0 {
                assert(join(views.subrange(0, 0), sep@) =~= Seq::<char>::empty());
            }
        }
        i = i + 1;
    }
    assert(views.subrange(0, views.len() as int) =~= views);
}

/// The last `.`-separated part of a replication strategy's class name.
pub open spec fn short_strategy(strategy: Seq<char>) -> Seq<char> {
    match rfind(strategy, seq!['.']) {
        Some(i) => strategy.subrange(i + 1, strategy.len() as int),
        None => strategy,
    }
}

/// The short name of a replication strategy: what follows its last `.`.
pub fn short_strategy_name(strategy: &str) -> (r: String)
    ensures
        r@ == short_strategy(strategy@),
{
    let c = chars_of(strategy);
    let mut dot: Vec<char> = Vec::new();
    dot.push('.');
    assert(dot@ =~= seq!['.']);
    proof {
        lemma_rfind_from_bounds(c@, seq!['.'], c@.len() as int - 1);
    }
    let n = c.len();
    match rfind_exec(&c, &dot) {
        Some(i) => {
            assert(i < n);
            let mut out = String::new();
            let mut k = i + 1;
            while k < c.len()
                invariant
                    i < c@.len(),
                    i + 1 <= k <= c@.len(),
                    out@ == c@.subrange(i + 1, k as int),
                decreases c.len() - k,
            {
                crate::text::push_char(&mut out, c[k]);
                k = k + 1;
                assert(out@ =~= c@.subrange(i + 1, k as int));
            }
            out
        },
        None => {
            let mut out = String::new();
            push_str(&mut out, strategy);
            out
        },
    }
}

/// A keyspace as `DESCRIBE` shows it.
#[derive(Debug, Clone)]
pub struct KeyspaceDdl {
    pub name: String,
    pub strategy_class: String,
    /// Replication options other than the class, in key order.
    pub options: Vec<(String, String)>,
    pub durable_writes: bool,
    pub comment: String,
}

/// The replication entries: the class, then each option.
pub open spec fn replication_entries(strategy: Seq<char>, options: Seq<(String, String)>) -> Seq<Seq<char>> {
    Seq::new(options.len() + 1, |j: int|
        if j == 0 {
            "'class': '"@ + short_strategy(strategy) + "'"@
        } else {
            option_entry(options[j - 1])
        })
}

/// One replication option as `'key': 'value'`.
pub open spec fn option_entry(o: (String, String)) -> Seq<char> {
    "'"@ + o.0@ + "': '"@ + o.1@ + "'"@
}

/// `true` or `false`.
pub open spec fn bool_text(b: bool) -> Seq<char> {
    if b { "true"@ } else { "false"@ }
}

/// The `CREATE KEYSPACE` statement, then the keyspace's comment if it has one.
pub open spec fn keyspace_ddl(k: KeyspaceDdl) -> Seq<char> {
    let base = "CREATE KEYSPACE "@ + k.name@ + " WITH replication = {"@
        + join(replication_entries(k.strategy_class@, k.options@), ", "@)
        + "} AND durable_writes = "@ + bool_text(k.durable_writes) + ";"@;
    if k.comment@.len() == 0 {
        base
    } else {
        base + "\nCOMMENT ON KEYSPACE "@ + k.name@ + " IS '"@ + escape_quotes(k.comment@) + "';"@
    }
}

/// Whether `t` occurs in `s`.
pub open spec fn has_text(s: Seq<char>, t: Seq<char>) -> bool {
    exists|i: int| 0 <= i && i + t.len() <= s.len() && #[trigger] s.subrange(i, i + t.len()) == t
}

/// The keyspace statement says whether writes are durable: it holds
/// `} AND durable_writes = true;` when they are and
/// `} AND durable_writes = false;` when they are not.
pub proof fn lemma_keyspace_states_durable_writes(k: KeyspaceDdl)
    ensures
        has_text(keyspace_ddl(k), "} AND durable_writes = "@ + (if k.durable_writes { "true"@ } else { "false"@ }) + ";"@),
{
    let p = "CREATE KEYSPACE "@ + k.name@ + " WITH replication = {"@
        + join(replication_entries(k.strategy_class@, k.options@), ", "@);
    let t = "} AND durable_writes = "@ + (if k.durable_writes { "true"@ } else { "false"@ }) + ";"@;
    let text = keyspace_ddl(k);
    let q = if k.comment@.len() == 0 {
        Seq::<char>::empty()
    } else {
        "\nCOMMENT ON KEYSPACE "@ + k.name@ + " IS '"@ + escape_quotes(k.comment@) + "';"@
    };
    assert(text =~= p + t + q);
    assert(text.subrange(p.len() as int, (p.len() + t.len()) as int) =~= t);
}

/// The CQL that recreates a keyspace.
pub fn render_keyspace_ddl(keyspace: &KeyspaceDdl) -> (r: String)
    ensures
        r@ == keyspace_ddl(*keyspace),
{
    let mut entries: Vec<String> = Vec::new();
    let mut first = String::new();
    push_str(&mut first, "'class': '");
    let short = short_strategy_name(keyspace.strategy_class.as_str());
    push_str(&mut first, short.as_str());
    push_str(&mut first, "'");
    assert(first@ =~= "'class': '"@ + short_strategy(keyspace.strategy_class@) + "'"@);
    entries.push(first);
    let ghost opts = keyspace.options@;
    let mut i: usize = 0;
    while i < keyspace.options.len()
        invariant
            i <= opts.len(),
            opts == keyspace.options@,
            entries@.len() == i + 1,
            string_views(entries@) == replication_entries(keyspace.strategy_class@, opts.subrange(0, i as int)),
        decreases keyspace.options.len() - i,
    {
        let mut e = String::new();
        push_str(&mut e, "'");
        push_str(&mut e, keyspace.options[i].0.as_str());
        push_str(&mut e, "': '");
        push_str(&mut e, keyspace.options[i].1.as_str());
        push_str(&mut e, "'");
        assert(e@ =~= option_entry(opts[i as int]));
        let ghost before = entries@;
        entries.push(e);
        proof {
            let sc = keyspace.strategy_class@;
            let next = replication_entries(sc, opts.subrange(0, i + 1));
            let prev = replication_entries(sc, opts.subrange(0, i as int));
            assert forall|j: int| 0 <= j < i + 2 implies #[trigger] string_views(entries@)[j] == next[j] by {
                if j < i + 1 {
                    assert(string_views(entries@)[j] == string_views(before)[j]);
                    assert(string_views(before)[j] == prev[j]);
                    if j > 0 {
                        assert(opts.subrange(0, i as int)[j - 1] == opts.subrange(0, i + 1)[j - 1]);
                    }
                } else {
                    assert(opts.subrange(0, i + 1)[i as int] == opts[i as int]);
                }
            }
        }
        i = i + 1;
        assert(string_views(entries@) =~= replication_entries(keyspace.strategy_class@, opts.subrange(0, i as int)));
    }
    assert(opts.subrange(0, opts.len() as int) =~= opts);
    let mut ddl = String::new();
    push_str(&mut ddl, "CREATE KEYSPACE ");
    assert(ddl@ =~= "CREATE KEYSPACE "@);
    push_str(&mut ddl, keyspace.name.as_str());
    push_str(&mut ddl, " WITH replication = {");
    push_joined(&mut ddl, entries.as_slice(), ", ");
    push_str(&mut ddl, "} AND durable_writes = ");
    push_str(&mut ddl, if keyspace.durable_writes { "true" } else { "false" });
    push_str(&mut ddl, ";");
    if keyspace.comment.as_str().unicode_len() > 0 {
        push_str(&mut ddl, "\nCOMMENT ON KEYSPACE ");
        push_str(&mut ddl, keyspace.name.as_str());
        push_str(&mut ddl, " IS '");
        let esc = escape_quotes_exec(keyspace.comment.as_str());
        push_str(&mut ddl, esc.as_str());
        push_str(&mut ddl, "';");
    }
    assert(ddl@ =~= keyspace_ddl(*keyspace));
    ddl
}

/// A user-defined function as `DESCRIBE` shows it.
#[derive(Debug, Clone)]
pub struct FunctionDdl {
    pub keyspace: String,
    pub name: String,
    pub arg_names: Vec<String>,
    pub arg_types: Vec<String>,
    pub called_on_null_input: bool,
    pub return_type: String,
    pub language: String,
    pub body: String,
}

/// `name type` for each argument with both.
pub open spec fn typed_args(names: Seq<String>, types: Seq<String>) -> Seq<Seq<char>> {
    let n = if names.len() < types.len() { names.len() } else { types.len() };
    Seq::new(n, |i: int| names[i]@ + " "@ + types[i]@)
}

/// The `CREATE FUNCTION` statement of a function.
pub open spec fn function_ddl(f: FunctionDdl) -> Seq<char> {
    "CREATE FUNCTION "@ + f.keyspace@ + "."@ + f.name@ + "("@ + join(typed_args(f.arg_names@, f.arg_types@), ", "@)
        + ")\n    "@ + (if f.called_on_null_input { "CALLED ON NULL INPUT"@ } else { "RETURNS NULL ON NULL INPUT"@ })
        + " RETURNS "@ + f.return_type@ + "\n    LANGUAGE "@ + f.language@ + "\n    AS '"@ + escape_quotes(f.body@) + "';"@
}

/// A function's statement says how it treats null input:
/// `CALLED ON NULL INPUT` when it is called on null input,
/// `RETURNS NULL ON NULL INPUT` when it is not.
pub proof fn lemma_function_states_null_handling(f: FunctionDdl)
    ensures
        has_text(function_ddl(f), if f.called_on_null_input { "CALLED ON NULL INPUT"@ } else { "RETURNS NULL ON NULL INPUT"@ }),
{
    let p = "CREATE FUNCTION "@ + f.keyspace@ + "."@ + f.name@ + "("@ + join(typed_args(f.arg_names@, f.arg_types@), ", "@)
        + ")\n    "@;
    let t = if f.called_on_null_input { "CALLED ON NULL INPUT"@ } else { "RETURNS NULL ON NULL INPUT"@ };
    let q = " RETURNS "@ + f.return_type@ + "\n    LANGUAGE "@ + f.language@ + "\n    AS '"@ + escape_quotes(f.body@) + "';"@;
    assert(function_ddl(f) =~= p + t + q);
    assert(function_ddl(f).subrange(p.len() as int, (p.len() + t.len()) as int) =~= t);
}

fn typed_args_exec(names: &[String], types: &[String]) -> (r: Vec<String>)
    ensures
        string_views(r@) == typed_args(names@, types@),
{
    let n = if names.len() < types.len() { names.len() } else { types.len() };
    let mut out: Vec<String> = Vec::new();
    let mut i: usize = 0;
    while i < n
        invariant
            n == (if names@.len() < types@.len() { names@.len() } else { types@.len() }),
            i <= n,
            out@.len() == i,
            string_views(out@) == typed_args(names@, types@).subrange(0, i as int),
        decreases n - i,
    {
        let mut e = String::new();
        push_str(&mut e, names[i].as_str());
        push_str(&mut e, " ");
        push_str(&mut e, types[i].as_str());
        assert(e@ =~= names@[i as int]@ + " "@ + types@[i as int]@);
        out.push(e);
        i = i + 1;
        assert(string_views(out@) =~= typed_args(names@, types@).subrange(0, i as int));
    }
    assert(typed_args(names@, types@).subrange(0, n as int) =~= typed_args(names@, types@));
    out
}

/// The CQL that recreates a function.
pub fn render_function_ddl(function: &FunctionDdl) -> (r: String)
    ensures
        r@ == function_ddl(*function),
{
    let args = typed_args_exec(function.arg_names.as_slice(), function.arg_types.as_slice());
    let mut ddl = String::new();
    push_str(&mut ddl, "CREATE FUNCTION ");
    assert(ddl@ =~= "CREATE FUNCTION "@);
    push_str(&mut ddl, function.keyspace.as_str());
    push_str(&mut ddl, ".");
    push_str(&mut ddl, function.name.as_str());
    push_str(&mut ddl, "(");
    push_joined(&mut ddl, args.as_slice(), ", ");
    push_str(&mut ddl, ")\n    ");
    push_str(&mut ddl, if function.called_on_null_input { "CALLED ON NULL INPUT" } else { "RETURNS NULL ON NULL INPUT" });
    push_str(&mut ddl, " RETURNS ");
    push_str(&mut ddl, function.return_type.as_str());
    push_str(&mut ddl, "\n    LANGUAGE ");
    push_str(&mut ddl, function.language.as_str());
    push_str(&mut ddl, "\n    AS '");
    let body = escape_quotes_exec(function.body.as_str());
    push_str(&mut ddl, body.as_str());
    push_str(&mut ddl, "';");
    assert(ddl@ =~= function_ddl(*function));
    ddl
}

/// A user-defined aggregate as `DESCRIBE` shows it.
#[derive(Debug, Clone)]
pub struct AggregateDdl {
    pub keyspace: String,
    pub name: String,
    pub arg_types: Vec<String>,
    pub sfunc: String,
    pub state_type: String,
    pub finalfunc: Option<String>,
    pub return_type: String,
    pub initcond: Option<String>,
}

/// The `CREATE AGGREGATE` statement of an aggregate; `RETURNS` appears only
/// when the return type is set and differs from the state type.
pub open spec fn aggregate_ddl(a: AggregateDdl) -> Seq<char> {
    let base = "CREATE AGGREGATE "@ + a.keyspace@ + "."@ + a.name@ + "("@ + join(string_views(a.arg_types@), ", "@)
        + ")\n    SFUNC "@ + a.sfunc@ + "\n    STYPE "@ + a.state_type@;
    let with_final = match a.finalfunc {
        Some(f) => base + "\n    FINALFUNC "@ + f@,
        None => base,
    };
    let with_returns = if a.return_type@.len() > 0 && a.return_type@ != a.state_type@ {
        with_final + "\n    RETURNS "@ + a.return_type@
    } else {
        with_final
    };
    let with_init = match a.initcond {
        Some(c) => with_returns + "\n    INITCOND "@ + c@,
        None => with_returns,
    };
    with_init + ";"@
}

/// The CQL that recreates an aggregate.
pub fn render_aggregate_ddl(aggregate: &AggregateDdl) -> (r: String)
    ensures
        r@ == aggregate_ddl(*aggregate),
{
    let mut ddl = String::new();
    push_str(&mut ddl, "CREATE AGGREGATE ");
    assert(ddl@ =~= "CREATE AGGREGATE "@);
    push_str(&mut ddl, aggregate.keyspace.as_str());
    push_str(&mut ddl, ".");
    push_str(&mut ddl, aggregate.name.as_str());
    push_str(&mut ddl, "(");
    push_joined(&mut ddl, aggregate.arg_types.as_slice(), ", ");
    push_str(&mut ddl, ")\n    SFUNC ");
    push_str(&mut ddl, aggregate.sfunc.as_str());
    push_str(&mut ddl, "\n    STYPE ");
    push_str(&mut ddl, aggregate.state_type.as_str());
    let ghost after_stype = ddl@;
    if let Some(f) = &aggregate.finalfunc {
        push_str(&mut ddl, "\n    FINALFUNC ");
        push_str(&mut ddl, f.as_str());
    }
    let ghost after_final = ddl@;
    if aggregate.return_type.as_str().unicode_len() > 0
        && !crate::text::str_eq(aggregate.return_type.as_str(), aggregate.state_type.as_str()) {
        push_str(&mut ddl, "\n    RETURNS ");
        push_str(&mut ddl, aggregate.return_type.as_str());
    }
    if let Some(c) = &aggregate.initcond {
        push_str(&mut ddl, "\n    INITCOND ");
        push_str(&mut ddl, c.as_str());
    }
    push_str(&mut ddl, ";");
    assert(ddl@ =~= aggregate_ddl(*aggregate));
    ddl
}

/// The primary key clause: the partition key (parenthesised when it has
/// several columns), then the clustering columns.
pub open spec fn partition_text(partition_key: Seq<String>) -> Seq<char> {
    if partition_key.len() > 1 {
        "("@ + join(string_views(partition_key), ", "@) + ")"@
    } else if partition_key.len() == 1 {
        partition_key[0]@
    } else {
        Seq::<char>::empty()
    }
}

/// The primary key clause: the partition key (parenthesised when it has
/// several columns), then the clustering columns.
pub open spec fn primary_key(partition_key: Seq<String>, clustering: Seq<String>) -> Seq<char> {
    join(seq![partition_text(partition_key)] + string_views(clustering), ", "@)
}

/// The primary key clause of a table.
pub fn render_primary_key(partition_key: &[String], clustering: &[String]) -> (r: String)
    ensures
        r@ == primary_key(partition_key@, clustering@),
{
    let mut partition = String::new();
    if partition_key.len() > 1 {
        push_str(&mut partition, "(");
        assert(partition@ =~= "("@);
        push_joined(&mut partition, partition_key, ", ");
        push_str(&mut partition, ")");
    } else if partition_key.len() == 1 {
        push_str(&mut partition, partition_key[0].as_str());
        assert(partition@ =~= partition_key@[0]@);
    } else {
        assert(partition@ =~= Seq::<char>::empty());
    }
    assert(partition@ == partition_text(partition_key@));
    let mut parts: Vec<String> = Vec::new();
    parts.push(partition);
    let mut i: usize = 0;
    while i < clustering.len()
        invariant
            i <= clustering@.len(),
            parts@.len() == i + 1,
            string_views(parts@) == seq![partition_text(partition_key@)] + string_views(clustering@).subrange(0, i as int),
        decreases clustering.len() - i,
    {
        let ghost before = parts@;
        let c = clustering[i].clone();
        parts.push(c);
        assert(parts@ == before.push(clustering@[i as int]));
        assert(string_views(parts@) =~= string_views(before).push(clustering@[i as int]@));
        i = i + 1;
        assert(string_views(parts@) =~= seq![partition_text(partition_key@)] + string_views(clustering@).subrange(0, i as int));
    }
    assert(string_views(clustering@).subrange(0, clustering@.len() as int) =~= string_views(clustering@));
    let mut out = String::new();
    push_joined(&mut out, parts.as_slice(), ", ");
    assert(out@ =~= primary_key(partition_key@, clustering@));
    out
}

/// The sort order of a clustering column.
#[derive(Debug, Clone, Copy, PartialEq, Eq, Structural)]
pub enum ClusteringOrder {
    Asc,
    Desc,
    Unordered,
}

/// `name ASC` / `name DESC` for each ordered clustering column.
pub open spec fn order_entries(cols: Seq<(String, ClusteringOrder)>) -> Seq<Seq<char>>
    decreases cols.len(),
{
    if cols.len() == 0 {
        seq![]
    } else {
        let rest = order_entries(cols.drop_last());
        match cols.last().1 {
            ClusteringOrder::Asc => rest.push(cols.last().0@ + " ASC"@),
            ClusteringOrder::Desc => rest.push(cols.last().0@ + " DESC"@),
            ClusteringOrder::Unordered => rest,
        }
    }
}

/// The `CLUSTERING ORDER BY` list of a table (empty when no column has an order).
pub fn render_clustering_order(clustering: &[(String, ClusteringOrder)]) -> (r: String)
    ensures
        r@ == join(order_entries(clustering@), ", "@),
{
    let mut parts: Vec<String> = Vec::new();
    let mut i: usize = 0;
    while i < clustering.len()
        invariant
            i <= clustering@.len(),
            string_views(parts@) == order_entries(clustering@.subrange(0, i as int)),
        decreases clustering.len() - i,
    {
        assert(clustering@.subrange(0, i + 1).drop_last() =~= clustering@.subrange(0, i as int));
        match clustering[i].1 {
            ClusteringOrder::Asc => {
                let mut e = String::new();
                push_str(&mut e, clustering[i].0.as_str());
                push_str(&mut e, " ASC");
                parts.push(e);
            },
            ClusteringOrder::Desc => {
                let mut e = String::new();
                push_str(&mut e, clustering[i].0.as_str());
                push_str(&mut e, " DESC");
                parts.push(e);
            },
            ClusteringOrder::Unordered => {},
        }
        i = i + 1;
        assert(string_views(parts@) =~= order_entries(clustering@.subrange(0, i as int)));
    }
    assert(clustering@.subrange(0, clustering@.len() as int) =~= clustering@);
    let mut out = String::new();
    push_joined(&mut out, parts.as_slice(), ", ");
    out
}

/// A user-defined type as `DESCRIBE` shows it.
#[derive(Debug, Clone)]
pub struct TypeDdl {
    pub keyspace: String,
    pub name: String,
    pub field_names: Vec<String>,
    pub field_types: Vec<String>,
    pub comment: String,
    /// Field comments by field name.
    pub field_comments: Vec<(String, String)>,
}

/// `    name type` for each field with both.
pub open spec fn field_lines(names: Seq<String>, types: Seq<String>) -> Seq<Seq<char>> {
    let n = if names.len() < types.len() { names.len() } else { types.len() };
    Seq::new(n, |i: int| "    "@ + names[i]@ + " "@ + types[i]@)
}

/// The `COMMENT ON FIELD` statements for the fields, in field order, of those
/// with a non-empty comment.
pub open spec fn field_comment_lines(keyspace: Seq<char>, name: Seq<char>, fields: Seq<String>, comments: Seq<(String, String)>) -> Seq<char>
    decreases fields.len(),
{
    if fields.len() == 0 {
        seq![]
    } else {
        let rest = field_comment_lines(keyspace, name, fields.drop_last(), comments);
        match entry_value(comments, fields.last()@) {
            Some(c) => if c.len() > 0 {
                rest + "\nCOMMENT ON FIELD "@ + keyspace + "."@ + name + "."@ + fields.last()@ + " IS '"@ + escape_quotes(c) + "';"@
            } else {
                rest
            },
            None => rest,
        }
    }
}

/// The `CREATE TYPE` statement, then the comments on the type and its fields.
pub open spec fn type_ddl(t: TypeDdl) -> Seq<char> {
    let base = "CREATE TYPE "@ + t.keyspace@ + "."@ + t.name@ + " (\n"@
        + join(field_lines(t.field_names@, t.field_types@), ",\n"@) + "\n);"@;
    let with_comment = if t.comment@.len() == 0 {
        base
    } else {
        base + "\nCOMMENT ON TYPE "@ + t.keyspace@ + "."@ + t.name@ + " IS '"@ + escape_quotes(t.comment@) + "';"@
    };
    with_comment + field_comment_lines(t.keyspace@, t.name@, t.field_names@, t.field_comments@)
}

fn find_comment(comments: &[(String, String)], field: &String) -> (r: Option<usize>)
    ensures
        match r {
            Some(i) => i < comments@.len() && entry_value(comments@, field@) == Some(comments@[i as int].1@),
            None => entry_value(comments@, field@) is None,
        },
{
    let mut i: usize = 0;
    assert(comments@.subrange(0, comments@.len() as int) =~= comments@);
    while i < comments.len()
        invariant
            i <= comments@.len(),
            entry_value(comments@, field@) == entry_value(comments@.subrange(i as int, comments@.len() as int), field@),
        decreases comments.len() - i,
    {
        let ghost rest = comments@.subrange(i as int, comments@.len() as int);
        assert(rest[0] == comments@[i as int]);
        if crate::text::str_eq(comments[i].0.as_str(), field.as_str()) {
            return Some(i);
        }
        assert(rest.drop_first() =~= comments@.subrange(i + 1, comments@.len() as int));
        i = i + 1;
    }
    None
}

/// The CQL that recreates a user-defined type.
pub fn render_type_ddl(user_type: &TypeDdl) -> (r: String)
    ensures
        r@ == type_ddl(*user_type),
{
    let names = user_type.field_names.as_slice();
    let types = user_type.field_types.as_slice();
    let n = if names.len() < types.len() { names.len() } else { types.len() };
    let mut lines: Vec<String> = Vec::new();
    let mut i: usize = 0;
    while i < n
        invariant
            n == (if names@.len() < types@.len() { names@.len() } else { types@.len() }),
            i <= n,
            lines@.len() == i,
            string_views(lines@) == field_lines(names@, types@).subrange(0, i as int),
        decreases n - i,
    {
        let mut e = String::new();
        push_str(&mut e, "    ");
        push_str(&mut e, names[i].as_str());
        push_str(&mut e, " ");
        push_str(&mut e, types[i].as_str());
        assert(e@ =~= "    "@ + names@[i as int]@ + " "@ + types@[i as int]@);
        lines.push(e);
        i = i + 1;
        assert(string_views(lines@) =~= field_lines(names@, types@).subrange(0, i as int));
    }
    assert(field_lines(names@, types@).subrange(0, n as int) =~= field_lines(names@, types@));
    let ks = user_type.keyspace.as_str();
    let nm = user_type.name.as_str();
    let mut ddl = String::new();
    push_str(&mut ddl, "CREATE TYPE ");
    assert(ddl@ =~= "CREATE TYPE "@);
    push_str(&mut ddl, ks);
    push_str(&mut ddl, ".");
    push_str(&mut ddl, nm);
    push_str(&mut ddl, " (\n");
    push_joined(&mut ddl, lines.as_slice(), ",\n");
    push_str(&mut ddl, "\n);");
    if user_type.comment.as_str().unicode_len() > 0 {
        push_str(&mut ddl, "\nCOMMENT ON TYPE ");
        push_str(&mut ddl, ks);
        push_str(&mut ddl, ".");
        push_str(&mut ddl, nm);
        push_str(&mut ddl, " IS '");
        let esc = escape_quotes_exec(user_type.comment.as_str());
        push_str(&mut ddl, esc.as_str());
        push_str(&mut ddl, "';");
    }
    let ghost head = ddl@;
    let fields = user_type.field_names.as_slice();
    let comments = user_type.field_comments.as_slice();
    let mut k: usize = 0;
    while k < fields.len()
        invariant
            k <= fields@.len(),
            ddl@ == head + field_comment_lines(ks@, nm@, fields@.subrange(0, k as int), comments@),
        decreases fields.len() - k,
    {
        assert(fields@.subrange(0, k + 1).drop_last() =~= fields@.subrange(0, k as int));
        assert(fields@.subrange(0, k + 1).last() == fields@[k as int]);
        match find_comment(comments, &fields[k]) {
            Some(j) => {
                if comments[j].1.as_str().unicode_len() > 0 {
                    let ghost before = ddl@;
                    push_str(&mut ddl, "\nCOMMENT ON FIELD ");
                    push_str(&mut ddl, ks);
                    push_str(&mut ddl, ".");
                    push_str(&mut ddl, nm);
                    push_str(&mut ddl, ".");
                    push_str(&mut ddl, fields[k].as_str());
                    push_str(&mut ddl, " IS '");
                    let esc = escape_quotes_exec(comments[j].1.as_str());
                    push_str(&mut ddl, esc.as_str());
                    push_str(&mut ddl, "';");
                    assert(ddl@ =~= before + ("\nCOMMENT ON FIELD "@ + ks@ + "."@ + nm@ + "."@ + fields@[k as int]@ + " IS '"@
                        + escape_quotes(comments@[j as int].1@) + "';"@));
                }
            },
            None => {},
        }
        k = k + 1;
        assert(ddl@ =~= head + field_comment_lines(ks@, nm@, fields@.subrange(0, k as int), comments@));
    }
    assert(fields@.subrange(0, fields@.len() as int) =~= fields@);
    assert(ddl@ =~= type_ddl(*user_type));
    ddl
}

/// The role of a column in a table.
#[derive(Debug, Clone, Copy, PartialEq, Eq, Structural)]
pub enum ColumnKind {
    PartitionKey,
    Clustering,
    Static,
    Regular,
}

/// Where a kind of column comes in `DESCRIBE TABLE`: partition key, clustering, static, regular.
pub open spec fn render_rank(kind: ColumnKind) -> int {
    match kind {
        ColumnKind::PartitionKey => 0,
        ColumnKind::Clustering => 1,
        ColumnKind::Static => 2,
        ColumnKind::Regular => 3,
    }
}

/// Where a kind of column comes in `DESCRIBE TABLE`.
pub fn column_render_rank(kind: ColumnKind) -> (r: u8)
    ensures
        r == render_rank(kind),
{
    match kind {
        ColumnKind::PartitionKey => 0,
        ColumnKind::Clustering => 1,
        ColumnKind::Static => 2,
        ColumnKind::Regular => 3,
    }
}

/// A column of a table as `DESCRIBE` shows it.
#[derive(Debug, Clone)]
pub struct TableColumnDdl {
    pub name: String,
    /// The column's CQL type, as CQL writes it.
    pub data_type: String,
    pub kind: ColumnKind,
    pub position: i32,
    pub comment: String,
}

/// A table as `DESCRIBE` shows it.
#[derive(Debug, Clone)]
pub struct TableDdl {
    pub keyspace: String,
    pub name: String,
    pub columns: Vec<TableColumnDdl>,
    /// The partition key columns, in key order.
    pub partition_key: Vec<String>,
    /// The clustering columns, in key order, with their sort order.
    pub clustering: Vec<(String, ClusteringOrder)>,
}

/// Whether column `a` is listed before column `b`: by kind, then position,
/// then name, and (for equal keys) in their original order.
pub open spec fn listed_before(cols: Seq<TableColumnDdl>, a: int, b: int) -> bool {
    let x = cols[a];
    let y = cols[b];
    if render_rank(x.kind) != render_rank(y.kind) {
        render_rank(x.kind) < render_rank(y.kind)
    } else if x.position != y.position {
        x.position < y.position
    } else if x.name@ != y.name@ {
        text_less(x.name@, y.name@)
    } else {
        a < b
    }
}

/// Whether `order` lists every column once, sorted for `DESCRIBE`.
pub open spec fn listing_order(cols: Seq<TableColumnDdl>, order: Seq<int>) -> bool {
    &&& order.len() == cols.len()
    &&& forall|i: int| 0 <= i < order.len() ==> 0 <= #[trigger] order[i] < cols.len()
    &&& forall|i: int, j: int| 0 <= i < j < order.len() ==> listed_before(cols, #[trigger] order[i], #[trigger] order[j])
}

/// The definition line of a column.
pub open spec fn column_line(c: TableColumnDdl) -> Seq<char> {
    "    "@ + c.name@ + " "@ + c.data_type@ + (if c.kind == ColumnKind::Static { " static"@ } else { Seq::<char>::empty() })
}

/// The `COMMENT ON COLUMN` statements, in column order, for columns with a comment.
pub open spec fn column_comment_lines(keyspace: Seq<char>, table: Seq<char>, cols: Seq<TableColumnDdl>) -> Seq<char>
    decreases cols.len(),
{
    if cols.len() == 0 {
        seq![]
    } else {
        column_comment_lines(keyspace, table, cols.drop_last()) + column_comment_line(keyspace, table, cols.last())
    }
}

/// The `COMMENT ON COLUMN` statement of one column, empty where it has no comment.
pub open spec fn column_comment_line(keyspace: Seq<char>, table: Seq<char>, c: TableColumnDdl) -> Seq<char> {
    if c.comment@.len() > 0 {
        "\nCOMMENT ON COLUMN "@ + keyspace + "."@ + table + "."@ + c.name@ + " IS '"@ + escape_quotes(c.comment@) + "';"@
    } else {
        seq![]
    }
}

fn push_column_comment(ddl: &mut String, ks: &str, nm: &str, c: &TableColumnDdl)
    ensures
        final(ddl)@ == old(ddl)@ + column_comment_line(ks@, nm@, *c),
{
    if c.comment.as_str().unicode_len() > 0 {
        push_str(ddl, "\nCOMMENT ON COLUMN ");
        push_str(ddl, ks);
        push_str(ddl, ".");
        push_str(ddl, nm);
        push_str(ddl, ".");
        push_str(ddl, c.name.as_str());
        push_str(ddl, " IS '");
        let esc = escape_quotes_exec(c.comment.as_str());
        push_str(ddl, esc.as_str());
        push_str(ddl, "';");
        assert(ddl@ =~= old(ddl)@ + ("\nCOMMENT ON COLUMN "@ + ks@ + "."@ + nm@ + "."@ + c.name@ + " IS '"@
            + escape_quotes(c.comment@) + "';"@));
    } else {
        assert(ddl@ =~= old(ddl)@ + column_comment_line(ks@, nm@, *c));
    }
}

/// The `CREATE TABLE` statement for columns listed in `order`.
pub open spec fn table_ddl(t: TableDdl, order: Seq<int>) -> Seq<char> {
    let cols = t.columns@;
    let lines = Seq::new(order.len(), |i: int| column_line(cols[order[i]]))
        .push("    PRIMARY KEY ("@ + primary_key(t.partition_key@, Seq::new(t.clustering@.len(), |i: int| t.clustering@[i].0)) + ")"@);
    let co = join(order_entries(t.clustering@), ", "@);
    let head = "CREATE TABLE "@ + t.keyspace@ + "."@ + t.name@ + " (\n"@ + join(lines, ",\n"@) + "\n)"@;
    let with_order = if co.len() > 0 { head + " WITH CLUSTERING ORDER BY ("@ + co + ")"@ } else { head };
    with_order + ";"@ + column_comment_lines(t.keyspace@, t.name@, cols)
}

proof fn lemma_listed_before_order(cols: Seq<TableColumnDdl>, a: int, b: int, c: int)
    requires
        0 <= a < cols.len(),
        0 <= b < cols.len(),
        0 <= c < cols.len(),
    ensures
        !listed_before(cols, a, a),
        !(listed_before(cols, a, b) && listed_before(cols, b, a)),
        a != b ==> listed_before(cols, a, b) || listed_before(cols, b, a),
        listed_before(cols, a, b) && listed_before(cols, b, c) ==> listed_before(cols, a, c),
{
    lemma_text_asymmetric(cols[a].name@, cols[b].name@);
    lemma_text_total(cols[a].name@, cols[b].name@);
    if listed_before(cols, a, b) && listed_before(cols, b, c) {
        if render_rank(cols[a].kind) == render_rank(cols[b].kind) && render_rank(cols[b].kind) == render_rank(cols[c].kind)
            && cols[a].position == cols[b].position && cols[b].position == cols[c].position
            && cols[a].name@ != cols[b].name@ && cols[b].name@ != cols[c].name@ {
            lemma_text_transitive(cols[a].name@, cols[b].name@, cols[c].name@);
            lemma_text_asymmetric(cols[a].name@, cols[c].name@);
        }
        if cols[a].name@ != cols[b].name@ && cols[b].name@ == cols[c].name@ {
        }
        if cols[a].name@ == cols[b].name@ && cols[b].name@ != cols[c].name@ {
        }
    }
}

fn listed_before_exec(cols: &[TableColumnDdl], a: usize, b: usize) -> (r: bool)
    requires
        a < cols@.len(),
        b < cols@.len(),
    ensures
        r == listed_before(cols@, a as int, b as int),
{
    let x = &cols[a];
    let y = &cols[b];
    let rx = column_render_rank(x.kind);
    let ry = column_render_rank(y.kind);
    if rx != ry {
        return rx < ry;
    }
    if x.position != y.position {
        return x.position < y.position;
    }
    let xn = chars_of(x.name.as_str());
    let yn = chars_of(y.name.as_str());
    if !crate::text::str_eq(x.name.as_str(), y.name.as_str()) {
        return crate::constraints::text_less_exec(&xn, &yn);
    }
    a < b
}

/// The order in which `DESCRIBE TABLE` lists the columns (insertion sort).
fn listing(cols: &[TableColumnDdl]) -> (order: Vec<usize>)
    ensures
        listing_order(cols@, order@.map_values(|i: usize| i as int)),
{
    let n = cols.len();
    let mut order: Vec<usize> = Vec::new();
    let mut k: usize = 0;
    while k < n
        invariant
            n == cols@.len(),
            k <= n,
            order@.len() == k,
            forall|i: int| 0 <= i < order@.len() ==> #[trigger] order@[i] < k,
            forall|i: int, j: int| 0 <= i < j < order@.len() ==> listed_before(cols@, #[trigger] order@[i] as int, #[trigger] order@[j] as int),
        decreases n - k,
    {
        let mut p: usize = 0;
        while p < order.len() && listed_before_exec(cols, order[p], k)
            invariant
                n == cols@.len(),
                k < n,
                p <= order@.len(),
                forall|i: int| 0 <= i < order@.len() ==> #[trigger] order@[i] < k,
                forall|i: int| 0 <= i < p ==> listed_before(cols@, #[trigger] order@[i] as int, k as int),
            decreases order@.len() - p,
        {
            p = p + 1;
        }
        let ghost old_order = order@;
        proof {
            assert forall|i: int| p <= i < old_order.len() implies listed_before(cols@, k as int, #[trigger] old_order[i] as int) by {
                lemma_listed_before_order(cols@, old_order[p as int] as int, k as int, old_order[i] as int);
                lemma_listed_before_order(cols@, k as int, old_order[p as int] as int, old_order[i] as int);
                lemma_listed_before_order(cols@, k as int, old_order[i] as int, old_order[i] as int);
                if i > p {
                    assert(listed_before(cols@, old_order[p as int] as int, old_order[i] as int));
                }
            }
        }
        order.insert(p, k);
        proof {
            assert forall|i: int, j: int| 0 <= i < j < order@.len() implies listed_before(cols@, #[trigger] order@[i] as int, #[trigger] order@[j] as int) by {
                if i < p && j < p {
                    assert(order@[i] == old_order[i] && order@[j] == old_order[j]);
                } else if i < p && j == p {
                } else if i < p && j > p {
                    assert(order@[j] == old_order[j - 1]);
                    assert(listed_before(cols@, old_order[i] as int, old_order[j - 1] as int));
                } else if i == p {
                    assert(order@[j] == old_order[j - 1]);
                } else {
                    assert(order@[i] == old_order[i - 1] && order@[j] == old_order[j - 1]);
                }
            }
        }
        k = k + 1;
    }
    let ghost view = order@.map_values(|i: usize| i as int);
    assert forall|i: int, j: int| 0 <= i < j < view.len() implies listed_before(cols@, #[trigger] view[i], #[trigger] view[j]) by {
        assert(view[i] == order@[i] as int && view[j] == order@[j] as int);
    }
    order
}

/// The CQL that recreates a table: its columns sorted by kind, position and
/// name, the primary key, the clustering order when there is one, then the
/// column comments.
pub fn render_table_ddl(table: &TableDdl) -> (r: String)
    ensures
        exists|order: Seq<int>| listing_order(table.columns@, order) && r@ == table_ddl(*table, order),
{
    let cols = table.columns.as_slice();
    let order = listing(cols);
    let ghost ord = order@.map_values(|i: usize| i as int);
    let mut lines: Vec<String> = Vec::new();
    let mut i: usize = 0;
    while i < order.len()
        invariant
            ord == order@.map_values(|i: usize| i as int),
            listing_order(cols@, ord),
            i <= order@.len(),
            lines@.len() == i,
            forall|j: int| 0 <= j < i ==> #[trigger] lines@[j]@ == column_line(cols@[ord[j]]),
        decreases order.len() - i,
    {
        assert(ord[i as int] == order@[i as int] as int);
        let c = &cols[order[i]];
        let mut line = String::new();
        push_str(&mut line, "    ");
        push_str(&mut line, c.name.as_str());
        push_str(&mut line, " ");
        push_str(&mut line, c.data_type.as_str());
        if c.kind == ColumnKind::Static {
            push_str(&mut line, " static");
        }
        assert(line@ =~= column_line(cols@[ord[i as int]]));
        lines.push(line);
        i = i + 1;
    }
    let mut clustering_names: Vec<String> = Vec::new();
    let mut j: usize = 0;
    while j < table.clustering.len()
        invariant
            j <= table.clustering@.len(),
            clustering_names@ == Seq::new(j as nat, |x: int| table.clustering@[x].0),
        decreases table.clustering.len() - j,
    {
        clustering_names.push(table.clustering[j].0.clone());
        j = j + 1;
        assert(clustering_names@ =~= Seq::new(j as nat, |x: int| table.clustering@[x].0));
    }
    let pk = render_primary_key(table.partition_key.as_slice(), clustering_names.as_slice());
    let mut pk_line = String::new();
    push_str(&mut pk_line, "    PRIMARY KEY (");
    push_str(&mut pk_line, pk.as_str());
    push_str(&mut pk_line, ")");
    let ghost line_views = string_views(lines@);
    lines.push(pk_line);
    let ghost expected_lines = Seq::new(ord.len(), |x: int| column_line(cols@[ord[x]]))
        .push("    PRIMARY KEY ("@ + primary_key(table.partition_key@, Seq::new(table.clustering@.len(), |x: int| table.clustering@[x].0)) + ")"@);
    assert(string_views(lines@) =~= expected_lines);
    let co = render_clustering_order(table.clustering.as_slice());
    let mut ddl = String::new();
    push_str(&mut ddl, "CREATE TABLE ");
    assert(ddl@ =~= "CREATE TABLE "@);
    push_str(&mut ddl, table.keyspace.as_str());
    push_str(&mut ddl, ".");
    push_str(&mut ddl, table.name.as_str());
    push_str(&mut ddl, " (\n");
    push_joined(&mut ddl, lines.as_slice(), ",\n");
    push_str(&mut ddl, "\n)");
    if co.as_str().unicode_len() > 0 {
        push_str(&mut ddl, " WITH CLUSTERING ORDER BY (");
        push_str(&mut ddl, co.as_str());
        push_str(&mut ddl, ")");
    }
    push_str(&mut ddl, ";");
    let ghost head = ddl@;
    let ks = table.keyspace.as_str();
    let nm = table.name.as_str();
    let mut k: usize = 0;
    while k < cols.len()
        invariant
            k <= cols@.len(),
            ddl@ == head + column_comment_lines(ks@, nm@, cols@.subrange(0, k as int)),
        decreases cols.len() - k,
    {
        assert(cols@.subrange(0, k + 1).drop_last() =~= cols@.subrange(0, k as int));
        assert(cols@.subrange(0, k + 1).last() == cols@[k as int]);
        push_column_comment(&mut ddl, ks, nm, &cols[k]);
        k = k + 1;
        assert(ddl@ =~= head + column_comment_lines(ks@, nm@, cols@.subrange(0, k as int)));
    }
    assert(cols@.subrange(0, cols@.len() as int) =~= cols@);
    assert(ddl@ =~= table_ddl(*table, ord));
    ddl
}

/// The signature of a function: its name and its argument types in parentheses.
pub open spec fn signature_text(name: Seq<char>, arg_types: Seq<String>) -> Seq<char> {
    name + "("@ + join(string_views(arg_types), ", "@) + ")"@
}

/// The signature of a function, given the CQL names of its argument types.
pub fn function_signature(name: &str, arg_types: &[String]) -> (r: String)
    ensures
        r@ == signature_text(name@, arg_types@),
{
    let mut out = String::new();
    push_str(&mut out, name);
    push_str(&mut out, "(");
    push_joined(&mut out, arg_types, ", ");
    push_str(&mut out, ")");
    out
}

/// The generated argument list of a function known only by its argument
/// types: `arg0`, `arg1`, ... with the types' CQL names.
pub open spec fn generated_args(arg_types: Seq<String>) -> Seq<(Seq<char>, Seq<char>)> {
    Seq::new(arg_types.len(), |i: int| ("arg"@ + crate::text::nat_decimal(i as nat), arg_types[i]@))
}

/// The generated argument list of a function known only by its argument types.
pub fn udf_arg_signature(arg_types: &[String]) -> (r: Vec<(String, String)>)
    ensures
        r@.map_values(|p: (String, String)| (p.0@, p.1@)) == generated_args(arg_types@),
{
    let mut out: Vec<(String, String)> = Vec::new();
    let mut i: usize = 0;
    while i < arg_types.len()
        invariant
            i <= arg_types@.len(),
            out@.len() == i,
            forall|j: int| 0 <= j < i ==> (#[trigger] out@[j]).0@ == "arg"@ + crate::text::nat_decimal(j as nat)
                && out@[j].1@ == arg_types@[j]@,
        decreases arg_types.len() - i,
    {
        let mut name = String::new();
        push_str(&mut name, "arg");
        crate::text::push_decimal_u64(&mut name, i as u64);
        assert(name@ =~= "arg"@ + crate::text::nat_decimal(i as nat));
        let t = arg_types[i].clone();
        out.push((name, t));
        i = i + 1;
    }
    assert(out@.map_values(|p: (String, String)| (p.0@, p.1@)) =~= generated_args(arg_types@));
    out
}

} // verus!
