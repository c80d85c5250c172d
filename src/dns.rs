//! Gives the tunnel's resolvers precedence over every other resolver on the
//! system.
//!
//! An override rule claims the whole namespace (`.`) and carries a fixed
//! marker in its comment, so that every rule this client created can be found
//! and removed again without having recorded anything at creation time. The
//! system's own resolver configuration is never deleted, only shadowed.
//!
//! The controller decides which system-configuration commands to issue; the
//! host runs them in order and reports the first failure as a DNS control
//! error. What the commands do to the system is stated by [`apply`].
use vstd::prelude::*;
use crate::text::{owned, views};

verus! {

/// Marker carried in the comment of every override rule this client creates.
pub const FZ_MAGIC: &'static str = "firezone-fd0020211111";

/// Namespace claimed by the override rule: every name.
pub const ALL_NAMES: &'static str = ".";

pub open spec fn magic() -> Seq<char> {
    "firezone-fd0020211111"@
}

pub open spec fn all_names() -> Seq<char> {
    "."@
}

/// One system-configuration command.
#[derive(Debug, Clone, PartialEq, Eq)]
pub enum DnsCommand {
    /// Point the resolver of interface `iface` at `servers`.
    SetInterfaceServers { iface: u32, servers: Vec<String> },
    /// Install a namespace override rule.
    AddRule { namespace: String, comment: String, servers: Vec<String> },
    /// Remove every override rule whose comment is this text.
    RemoveRulesWithComment(String),
    /// Clear the system's resolver cache.
    FlushCache,
}

/// A command, over plain values.
pub ghost enum CommandModel {
    SetInterfaceServers { iface: u32, servers: Seq<Seq<char>> },
    AddRule { namespace: Seq<char>, comment: Seq<char>, servers: Seq<Seq<char>> },
    RemoveRulesWithComment(Seq<char>),
    FlushCache,
}

impl View for DnsCommand {
    type V = CommandModel;

    open spec fn view(&self) -> CommandModel {
        match self {
            DnsCommand::SetInterfaceServers { iface, servers } => CommandModel::SetInterfaceServers {
                iface: *iface,
                servers: views(servers@),
            },
            DnsCommand::AddRule { namespace, comment, servers } => CommandModel::AddRule {
                namespace: namespace@,
                comment: comment@,
                servers: views(servers@),
            },
            DnsCommand::RemoveRulesWithComment(c) => CommandModel::RemoveRulesWithComment(c@),
            DnsCommand::FlushCache => CommandModel::FlushCache,
        }
    }
}

pub open spec fn command_views(v: Seq<DnsCommand>) -> Seq<CommandModel> {
    v.map_values(|c: DnsCommand| c@)
}

/// A namespace override rule of the system resolver.
pub ghost struct Rule {
    pub namespace: Seq<char>,
    pub comment: Seq<char>,
    pub servers: Seq<Seq<char>>,
}

/// The parts of the system's resolver configuration that commands change.
pub ghost struct DnsSystem {
    pub interface_servers: Map<u32, Seq<Seq<char>>>,
    pub rules: Seq<Rule>,
}

/// `rules` without those whose comment is `c`, order kept.
pub open spec fn without_comment(rules: Seq<Rule>, c: Seq<char>) -> Seq<Rule>
    decreases rules.len(),
{
    if rules.len() == 0 {
        rules
    } else {
        let rest = without_comment(rules.drop_last(), c);
        if rules.last().comment == c {
            rest
        } else {
            rest.push(rules.last())
        }
    }
}

pub open spec fn has_comment(rules: Seq<Rule>, c: Seq<char>) -> bool {
    exists|i: int| 0 <= i < rules.len() && rules[i].comment == c
}

/// What one command does to the system.
pub open spec fn apply(sys: DnsSystem, c: CommandModel) -> DnsSystem {
    match c {
        CommandModel::SetInterfaceServers { iface, servers } => DnsSystem {
            interface_servers: sys.interface_servers.insert(iface, servers),
            ..sys
        },
        CommandModel::AddRule { namespace, comment, servers } => DnsSystem {
            rules: sys.rules.push(Rule { namespace, comment, servers }),
            ..sys
        },
        CommandModel::RemoveRulesWithComment(comment) => DnsSystem {
            rules: without_comment(sys.rules, comment),
            ..sys
        },
        CommandModel::FlushCache => sys,
    }
}

/// What a list of commands, run in order, does to the system.
pub open spec fn apply_all(sys: DnsSystem, cs: Seq<CommandModel>) -> DnsSystem
    decreases cs.len(),
{
    if cs.len() == 0 {
        sys
    } else {
        apply_all(apply(sys, cs[0]), cs.drop_first())
    }
}

pub open spec fn activate_spec(servers: Seq<Seq<char>>, iface: u32) -> Seq<CommandModel> {
    seq![
        CommandModel::SetInterfaceServers { iface, servers },
        CommandModel::AddRule { namespace: all_names(), comment: magic(), servers },
    ]
}

pub open spec fn deactivate_spec() -> Seq<CommandModel> {
    seq![CommandModel::RemoveRulesWithComment(magic())]
}

proof fn lemma_without_absent(rules: Seq<Rule>, c: Seq<char>)
    requires
        !has_comment(rules, c),
    ensures
        without_comment(rules, c) == rules,
    decreases rules.len(),
{
    if rules.len() > 0 {
        let init = rules.drop_last();
        assert(!has_comment(init, c)) by {
            if has_comment(init, c) {
                let i = choose|i: int| 0 <= i < init.len() && init[i].comment == c;
                assert(rules[i] == init[i]);
            }
        }
        lemma_without_absent(init, c);
        assert(rules[rules.len() - 1].comment != c);
        assert(init.push(rules.last()) =~= rules);
    }
}

proof fn lemma_without_removes_all(rules: Seq<Rule>, c: Seq<char>)
    ensures
        !has_comment(without_comment(rules, c), c),
        without_comment(rules, c).len() <= rules.len(),
    decreases rules.len(),
{
    if rules.len() > 0 {
        let init = rules.drop_last();
        lemma_without_removes_all(init, c);
        let rest = without_comment(init, c);
        if rules.last().comment != c {
            let pushed = rest.push(rules.last());
            if has_comment(pushed, c) {
                let i = choose|i: int| 0 <= i < pushed.len() && pushed[i].comment == c;
                assert(i < rest.len() ==> rest[i] == pushed[i]);
            }
        }
    }
}

proof fn lemma_without_push(rules: Seq<Rule>, r: Rule, c: Seq<char>)
    requires
        r.comment == c,
    ensures
        without_comment(rules.push(r), c) == without_comment(rules, c),
{
    assert(rules.push(r).drop_last() =~= rules);
}

proof fn lemma_apply_all_concat(sys: DnsSystem, a: Seq<CommandModel>, b: Seq<CommandModel>)
    ensures
        apply_all(sys, a + b) == apply_all(apply_all(sys, a), b),
    decreases a.len(),
{
    if a.len() > 0 {
        assert((a + b).drop_first() =~= a.drop_first() + b);
        assert((a + b)[0] == a[0]);
        lemma_apply_all_concat(apply(sys, a[0]), a.drop_first(), b);
    } else {
        assert(a + b =~= b);
    }
}

/// Removing the marked rules where there is none succeeds and changes
/// nothing.
pub proof fn lemma_deactivate_without_rule_is_noop(sys: DnsSystem)
    requires
        !has_comment(sys.rules, magic()),
    ensures
        apply_all(sys, deactivate_spec()) == sys,
{
    reveal_with_fuel(apply_all, 2);
    lemma_without_absent(sys.rules, magic());
    assert(deactivate_spec().drop_first() =~= Seq::<CommandModel>::empty());
}

/// After deactivation no marked rule is left, and every other rule is kept,
/// in its order.
pub proof fn lemma_deactivate_removes_only_marked_rules(sys: DnsSystem)
    ensures
        !has_comment(apply_all(sys, deactivate_spec()).rules, magic()),
        apply_all(sys, deactivate_spec()).rules == without_comment(sys.rules, magic()),
        apply_all(sys, deactivate_spec()).interface_servers == sys.interface_servers,
{
    reveal_with_fuel(apply_all, 2);
    lemma_without_removes_all(sys.rules, magic());
    assert(deactivate_spec().drop_first() =~= Seq::<CommandModel>::empty());
}

/// Deactivating twice leaves the system as deactivating once.
pub proof fn lemma_deactivate_idempotent(sys: DnsSystem)
    ensures
        apply_all(apply_all(sys, deactivate_spec()), deactivate_spec()) == apply_all(
            sys,
            deactivate_spec(),
        ),
{
    lemma_deactivate_removes_only_marked_rules(sys);
    lemma_deactivate_without_rule_is_noop(apply_all(sys, deactivate_spec()));
}

/// Activation points the interface at the servers, adds exactly one rule,
/// marked and claiming every name, and leaves the unmarked rules as they
/// were.
pub proof fn lemma_activate_installs_marked_rule(
    sys: DnsSystem,
    servers: Seq<Seq<char>>,
    iface: u32,
)
    ensures
        ({
            let after = apply_all(sys, activate_spec(servers, iface));
            &&& after.interface_servers == sys.interface_servers.insert(iface, servers)
            &&& after.rules == sys.rules.push(
                Rule { namespace: all_names(), comment: magic(), servers },
            )
            &&& without_comment(after.rules, magic()) == without_comment(sys.rules, magic())
        }),
{
    reveal_with_fuel(apply_all, 3);
    let cs = activate_spec(servers, iface);
    assert(cs.drop_first().drop_first() =~= Seq::<CommandModel>::empty());
    let s1 = apply(sys, cs[0]);
    assert(apply_all(sys, cs) == apply_all(s1, cs.drop_first()));
    assert(cs.drop_first()[0] == cs[1]);
    lemma_without_push(
        sys.rules,
        Rule { namespace: all_names(), comment: magic(), servers },
        magic(),
    );
}

/// Changing the servers ends in the same state as deactivating and then
/// activating with the new servers.
pub proof fn lemma_change_is_deactivate_then_activate(
    sys: DnsSystem,
    servers: Seq<Seq<char>>,
    iface: u32,
)
    ensures
        apply_all(sys, deactivate_spec() + activate_spec(servers, iface)) == apply_all(
            apply_all(sys, deactivate_spec()),
            activate_spec(servers, iface),
        ),
{
    lemma_apply_all_concat(sys, deactivate_spec(), activate_spec(servers, iface));
}

/// Flushing the cache leaves rules and interfaces as they are.
pub proof fn lemma_flush_keeps_configuration(sys: DnsSystem)
    ensures
        apply_all(sys, seq![CommandModel::FlushCache]) == sys,
{
    reveal_with_fuel(apply_all, 2);
    assert(seq![CommandModel::FlushCache].drop_first() =~= Seq::<CommandModel>::empty());
}

fn copy_all(v: &Vec<String>) -> (r: Vec<String>)
    ensures
        views(r@) == views(v@),
{
    let mut r: Vec<String> = Vec::new();
    let mut i: usize = 0;
    while i < v.len()
        invariant
            i <= v.len(),
            r@.len() == i,
            forall|j: int| 0 <= j < i ==> #[trigger] r@[j]@ == v@[j]@,
        decreases v.len() - i,
    {
        let s = owned(v[i].as_str());
        r.push(s);
        i = i + 1;
    }
    assert(views(r@) =~= views(v@));
    r
}

/// Tells the system to send all DNS queries to `servers`: the interface's
/// resolver is pointed at them, then an override rule bearing the marker
/// claims every name ahead of other resolvers.
pub fn activate(servers: &Vec<String>, iface_idx: u32) -> (r: Vec<DnsCommand>)
    ensures
        command_views(r@) == activate_spec(views(servers@), iface_idx),
{
    proof {
        reveal_strlit(".");
        reveal_strlit("firezone-fd0020211111");
    }
    let r = vec![
        DnsCommand::SetInterfaceServers { iface: iface_idx, servers: copy_all(servers) },
        DnsCommand::AddRule {
            namespace: owned(ALL_NAMES),
            comment: owned(FZ_MAGIC),
            servers: copy_all(servers),
        },
    ];
    assert(command_views(r@) =~= activate_spec(views(servers@), iface_idx));
    r
}

/// Removes every override rule bearing the marker; nothing else is touched,
/// and with no such rule it changes nothing.
pub fn deactivate() -> (r: Vec<DnsCommand>)
    ensures
        command_views(r@) == deactivate_spec(),
{
    proof {
        reveal_strlit("firezone-fd0020211111");
    }
    let r = vec![DnsCommand::RemoveRulesWithComment(owned(FZ_MAGIC))];
    assert(command_views(r@) =~= deactivate_spec());
    r
}

/// Points all DNS queries at a new set of servers by removing the rule and
/// adding it again.
///
/// This leaves a short window in which no override is installed and the
/// system's default resolvers answer; it spares having to find out the live
/// rule's identity.
pub fn change(servers: &Vec<String>, iface_idx: u32) -> (r: Vec<DnsCommand>)
    ensures
        command_views(r@) == deactivate_spec() + activate_spec(views(servers@), iface_idx),
{
    let mut r = deactivate();
    let mut a = activate(servers, iface_idx);
    r.append(&mut a);
    assert(command_views(r@) =~= deactivate_spec() + activate_spec(views(servers@), iface_idx));
    r
}

/// Clears the system-wide resolver cache; the rules stay as they are.
pub fn flush() -> (r: Vec<DnsCommand>)
    ensures
        command_views(r@) == seq![CommandModel::FlushCache],
{
    let r = vec![DnsCommand::FlushCache];
    assert(command_views(r@) =~= seq![CommandModel::FlushCache]);
    r
}

/// A server address in double quotes.
pub open spec fn quoted_item(s: Seq<char>) -> Seq<char> {
    "\""@ + s + "\""@
}

/// The servers, each in double quotes, separated by commas: the form the
/// system-configuration commands take a server list in.
pub open spec fn quoted_spec(v: Seq<Seq<char>>) -> Seq<char>
    decreases v.len(),
{
    if v.len() == 0 {
        seq![]
    } else if v.len() == 1 {
        quoted_item(v[0])
    } else {
        quoted_spec(v.drop_last()) + ","@ + quoted_item(v.last())
    }
}

/// `"1.1.1.1","8.8.8.8"` for the servers `1.1.1.1` and `8.8.8.8`.
pub fn quoted_servers(servers: &Vec<String>) -> (r: String)
    ensures
        r@ == quoted_spec(views(servers@)),
{
    let mut r = String::new();
    let mut i: usize = 0;
    while i < servers.len()
        invariant
            i <= servers@.len(),
            r@ == quoted_spec(views(servers@.subrange(0, i as int))),
        decreases servers@.len() - i,
    {
        let ghost prev = views(servers@.subrange(0, i as int));
        if i > 0 {
            r.append(",");
        }
        r.append("\"");
        r.append(servers[i].as_str());
        r.append("\"");
        i = i + 1;
        proof {
            let cur = views(servers@.subrange(0, i as int));
            assert(cur.drop_last() =~= prev);
            assert(cur.last() == servers@[i - 1]@);
            reveal_strlit(",");
            reveal_strlit("\"");
            if i == 1 {
                assert(prev.len() == 0);
            }
            assert(r@ =~= quoted_spec(cur));
        }
    }
    assert(servers@.subrange(0, servers@.len() as int) =~= servers@);
    r
}

} // verus!
