//! The zone policy deriver: groups declared interfaces by zone label and
//! maps each zone onto a fixed rule template (`wan`: allow inbound tcp 22;
//! `lan`: allow all inbound; any other zone: allow inbound tcp 80 and 443),
//! on top of unconditional baseline rules.

use vstd::prelude::*;
use crate::ir::{
    add_chain_chars, add_rule_chars, add_table_chars, cmp_set, cmp_set_chars, cmp_str,
    cmp_str_chars, expr_chars, exprs_chars, exprs_views, flush_table_chars, match_chars, match_expr,
    opt_string_view, stmt_chars, Add, AddChain, AddTable, Batch, Expr, Flush, Stmt, TableFamily,
};
use crate::text::{join_chars, str_eq};

verus! {

/// Administrator-declared intent for one interface: its unique name, an
/// optional DHCP flag, an optional static `ip/prefix` address, and an
/// optional zone label.
#[derive(Debug, Clone)]
pub struct InterfaceConfig {
    pub name: String,
    pub dhcp: Option<bool>,
    pub address: Option<String>,
    pub nftables_zone: Option<String>,
}

/// The mathematical view of an `InterfaceConfig`.
pub struct InterfaceConfigV {
    pub name: Seq<char>,
    pub dhcp: Option<bool>,
    pub address: Option<Seq<char>>,
    pub nftables_zone: Option<Seq<char>>,
}

impl View for InterfaceConfig {
    type V = InterfaceConfigV;

    open spec fn view(&self) -> InterfaceConfigV {
        InterfaceConfigV {
            name: self.name@,
            dhcp: self.dhcp,
            address: opt_string_view(self.address),
            nftables_zone: opt_string_view(self.nftables_zone),
        }
    }
}

impl DeepView for InterfaceConfig {
    type V = InterfaceConfigV;

    open spec fn deep_view(&self) -> InterfaceConfigV {
        self.view()
    }
}

/// Holds of a declared interface exactly when it carries zone label `z`.
pub open spec fn zone_pred(z: Seq<char>) -> spec_fn(InterfaceConfigV) -> bool {
    |c: InterfaceConfigV| c.nftables_zone == Some(z)
}

/// The names of the interfaces declared with zone label `z`, in declaration
/// order.
pub open spec fn zone_members(configs: Seq<InterfaceConfigV>, z: Seq<char>) -> Seq<Seq<char>> {
    configs.filter(zone_pred(z)).map(|i: int, c: InterfaceConfigV| c.name)
}

/// The distinct zone labels occurring in `configs`, each in the position of
/// its first appearance.
pub open spec fn distinct_zones(configs: Seq<InterfaceConfigV>) -> Seq<Seq<char>>
    decreases configs.len(),
{
    if configs.len() == 0 {
        Seq::empty()
    } else {
        let init = distinct_zones(configs.drop_last());
        match configs.last().nftables_zone {
            Some(z) => if init.contains(z) {
                init
            } else {
                init.push(z)
            },
            None => init,
        }
    }
}

/// The distinct zone labels carry no duplicates.
pub proof fn lemma_distinct_zones_distinct(configs: Seq<InterfaceConfigV>)
    ensures
        forall|i: int, j: int|
            0 <= i < j < distinct_zones(configs).len() ==> distinct_zones(configs)[i]
                != distinct_zones(configs)[j],
    decreases configs.len(),
{
    if configs.len() > 0 {
        lemma_distinct_zones_distinct(configs.drop_last());
        let init = distinct_zones(configs.drop_last());
        match configs.last().nftables_zone {
            Some(z) => {
                if !init.contains(z) {
                    assert(forall|i: int| 0 <= i < init.len() ==> init[i] != z);
                }
            },
            None => {},
        }
    }
}

/// A zone label that is not listed has no members.
pub proof fn lemma_unlisted_zone_empty(configs: Seq<InterfaceConfigV>, z: Seq<char>)
    requires
        !distinct_zones(configs).contains(z),
    ensures
        zone_members(configs, z) =~= Seq::<Seq<char>>::empty(),
    decreases configs.len(),
{
    reveal(Seq::filter);
    let pred = zone_pred(z);
    if configs.len() > 0 {
        let init = distinct_zones(configs.drop_last());
        assert(!init.contains(z)) by {
            if init.contains(z) {
                let i = choose|i: int| 0 <= i < init.len() && init[i] == z;
                match configs.last().nftables_zone {
                    Some(w) => {
                        if init.contains(w) {
                            assert(distinct_zones(configs)[i] == z);
                        } else {
                            assert(distinct_zones(configs)[i] == z);
                        }
                    },
                    None => {
                        assert(distinct_zones(configs)[i] == z);
                    },
                }
            }
        }
        assert(configs.last().nftables_zone != Some(z)) by {
            if configs.last().nftables_zone == Some(z) {
                assert(distinct_zones(configs).contains(z)) by {
                    if init.contains(z) {
                        let i = choose|i: int| 0 <= i < init.len() && init[i] == z;
                        assert(distinct_zones(configs)[i] == z);
                    } else {
                        assert(distinct_zones(configs).last() == z);
                    }
                }
            }
        }
        lemma_unlisted_zone_empty(configs.drop_last(), z);
        assert(configs.filter(pred) =~= configs.drop_last().filter(pred));
    }
}

fn find_zone(groups: &Vec<(String, Vec<String>)>, z: &str) -> (o: Option<usize>)
    ensures
        match o {
            Some(j) => j < groups@.len() && groups@[j as int].0@ == z@,
            None => forall|t: int| 0 <= t < groups@.len() ==> groups@[t].0@ != z@,
        },
{
    let mut j: usize = 0;
    while j < groups.len()
        invariant
            j <= groups@.len(),
            forall|t: int| 0 <= t < j ==> groups@[t].0@ != z@,
        decreases groups@.len() - j,
    {
        if str_eq(groups[j].0.as_str(), z) {
            return Some(j);
        }
        j += 1;
    }
    None
}

/// Groups the declared interface names by zone label: one entry per distinct
/// zone, in order of first appearance, each carrying that zone's member
/// names in declaration order. Interfaces without a zone label are omitted.
pub fn group_by_zone(configs: &Vec<InterfaceConfig>) -> (r: Vec<(String, Vec<String>)>)
    ensures
        r@.len() == distinct_zones(configs.deep_view()).len(),
        forall|i: int|
            0 <= i < r@.len() ==> r@[i].0@ == distinct_zones(configs.deep_view())[i],
        forall|i: int|
            0 <= i < r@.len() ==> r@[i].1.deep_view() == zone_members(
                configs.deep_view(),
                r@[i].0@,
            ),
{
    let ghost gcv = configs.deep_view();
    let mut r: Vec<(String, Vec<String>)> = Vec::new();
    let mut k: usize = 0;
    proof {
        assert(gcv.len() == configs@.len());
        assert(gcv.take(0) =~= Seq::<InterfaceConfigV>::empty());
    }
    while k < configs.len()
        invariant
            k <= gcv.len(),
            gcv.len() == configs@.len(),
            gcv == configs.deep_view(),
            r@.len() == distinct_zones(gcv.take(k as int)).len(),
            forall|i: int|
                0 <= i < r@.len() ==> r@[i].0@ == distinct_zones(gcv.take(k as int))[i],
            forall|i: int|
                0 <= i < r@.len() ==> r@[i].1.deep_view() == zone_members(
                    gcv.take(k as int),
                    r@[i].0@,
                ),
        decreases gcv.len() - k,
    {
        let ghost prefix = gcv.take(k as int);
        let ghost next = gcv.take(k + 1);
        proof {
            assert(next.drop_last() =~= prefix);
            assert(next.last() == gcv[k as int]);
            assert(gcv[k as int] == configs@[k as int].deep_view());
            lemma_distinct_zones_distinct(prefix);
        }
        let cfg = &configs[k];
        if let Some(z) = &cfg.nftables_zone {
            proof {
                assert(gcv[k as int].nftables_zone == Some(z@));
            }
            match find_zone(&r, z.as_str()) {
                Some(j) => {
                    proof {
                        // the zone is already listed, so the zone list is
                        // unchanged and only entry `j` gains a member
                        assert(distinct_zones(prefix).contains(z@)) by {
                            assert(distinct_zones(prefix)[j as int] == z@);
                        }
                        assert(distinct_zones(next) == distinct_zones(prefix));
                    }
                    let name = cfg.name.clone();
                    let ghost rpre = r@;
                    r[j].1.push(name);
                    proof {
                        reveal(Seq::filter);
                        let pred = zone_pred(z@);
                        assert(next.filter(pred) =~= prefix.filter(pred).push(gcv[k as int]));
                        assert(zone_members(next, z@) =~= zone_members(prefix, z@).push(
                            gcv[k as int].name,
                        ));
                        assert(r@[j as int].1.deep_view() =~= zone_members(next, z@));
                        assert forall|i: int| 0 <= i < r@.len() && i != j implies r@[i].1.deep_view()
                            == zone_members(next, r@[i].0@) by {
                            assert(r@[i] == rpre[i]);
                            let zi = r@[i].0@;
                            assert(zi == distinct_zones(prefix)[i]);
                            assert(z@ == distinct_zones(prefix)[j as int]);
                            assert(zi != z@);
                            let predi = zone_pred(zi);
                            assert(next.filter(predi) =~= prefix.filter(predi));
                        }
                    }
                },
                None => {
                    proof {
                        assert(!distinct_zones(prefix).contains(z@));
                        assert(distinct_zones(next) == distinct_zones(prefix).push(z@));
                        lemma_unlisted_zone_empty(prefix, z@);
                    }
                    let name = cfg.name.clone();
                    r.push((z.clone(), vec![name]));
                    proof {
                        reveal(Seq::filter);
                        let pred = zone_pred(z@);
                        assert(next.filter(pred) =~= prefix.filter(pred).push(gcv[k as int]));
                        assert(zone_members(next, z@) =~= seq![gcv[k as int].name]);
                        assert(r@[r@.len() - 1].1.deep_view() =~= zone_members(next, z@));
                        assert forall|i: int| 0 <= i < r@.len() - 1 implies r@[i].1.deep_view()
                            == zone_members(next, r@[i].0@) by {
                            let zi = r@[i].0@;
                            assert(zi == distinct_zones(prefix)[i]);
                            assert(zi != z@);
                            let predi = zone_pred(zi);
                            assert(next.filter(predi) =~= prefix.filter(predi));
                        }
                    }
                },
            }
        } else {
            proof {
                reveal(Seq::filter);
                assert(gcv[k as int].nftables_zone is None);
                assert(distinct_zones(next) == distinct_zones(prefix));
                assert forall|i: int| 0 <= i < r@.len() implies r@[i].1.deep_view()
                    == zone_members(next, r@[i].0@) by {
                    let zi = r@[i].0@;
                    let predi = zone_pred(zi);
                    assert(next.filter(predi) =~= prefix.filter(predi));
                }
            }
        }
        k += 1;
    }
    proof {
        assert(gcv.take(k as int) =~= gcv);
    }
    r
}

/// Rendered text of the inbound-interface-name selector.
pub open spec fn iif_match_chars(iface: Seq<char>) -> Seq<char> {
    match_chars("meta"@, cmp_str_chars("iifname"@, iface))
}

/// Rendered text of the administrative-access selector (tcp dport 22).
pub open spec fn ssh_match_chars() -> Seq<char> {
    match_chars("tcp"@, cmp_str_chars("dport"@, "22"@))
}

/// Rendered text of the web-traffic selector (tcp dport 80 or 443).
pub open spec fn web_match_chars() -> Seq<char> {
    match_chars("tcp"@, cmp_set_chars("dport"@, seq!["80"@, "443"@]))
}

/// Rendered text of the `wan` template rule for one interface: allow
/// inbound tcp port 22 on that interface.
pub open spec fn wan_rule_chars(iface: Seq<char>) -> Seq<char> {
    add_rule_chars(
        "inet"@,
        "filter"@,
        "input"@,
        iif_match_chars(iface) + " "@ + ssh_match_chars() + " "@ + "accept"@,
    )
}

/// Rendered text of the `lan` template rule for one interface: allow all
/// inbound traffic on that interface.
pub open spec fn lan_rule_chars(iface: Seq<char>) -> Seq<char> {
    add_rule_chars("inet"@, "filter"@, "input"@, iif_match_chars(iface) + " "@ + "accept"@)
}

/// Rendered text of the template rule for any other zone: allow inbound
/// tcp ports 80 and 443 only on that interface.
pub open spec fn other_zone_rule_chars(iface: Seq<char>) -> Seq<char> {
    add_rule_chars(
        "inet"@,
        "filter"@,
        "input"@,
        iif_match_chars(iface) + " "@ + web_match_chars() + " "@ + "accept"@,
    )
}

/// Rendered text of the template rule chosen for one interface of the given
/// zone: `wan` and `lan` have their own templates, every other label falls
/// through to the web-only template.
pub open spec fn zone_rule_chars(zone: Seq<char>, iface: Seq<char>) -> Seq<char> {
    if zone == "wan"@ {
        wan_rule_chars(iface)
    } else if zone == "lan"@ {
        lan_rule_chars(iface)
    } else {
        other_zone_rule_chars(iface)
    }
}

fn iif_match(iface: &str) -> (r: Expr)
    ensures
        expr_chars(r) == iif_match_chars(iface@),
{
    match_expr("meta", cmp_str("iifname", iface))
}

fn input_rule_stmt(exprs: Vec<Expr>) -> (r: Stmt)
    ensures
        stmt_chars(r) == add_rule_chars("inet"@, "filter"@, "input"@, exprs_chars(exprs@)),
{
    Stmt::Add(
        Add {
            family: TableFamily::Inet,
            table: "filter".to_owned(),
            chain: "input".to_owned(),
            handle: None,
            index: None,
            expr: exprs,
        },
    )
}

/// Builds the template rule statement for one interface of the given zone.
pub fn zone_rule_stmt(zone: &str, iface: &str) -> (r: Stmt)
    ensures
        stmt_chars(r) == zone_rule_chars(zone@, iface@),
{
    let iif = iif_match(iface);
    let mut exprs: Vec<Expr> = Vec::new();
    exprs.push(iif);
    if str_eq(zone, "wan") {
        exprs.push(match_expr("tcp", cmp_str("dport", "22")));
        exprs.push(Expr::Accept);
        let ghost ev = exprs@;
        let r = input_rule_stmt(exprs);
        proof {
            reveal_with_fuel(join_chars, 5);
            assert(exprs_views(ev) =~= seq![iif_match_chars(iface@), ssh_match_chars(), "accept"@]);
            assert(exprs_views(ev).drop_first() =~= seq![ssh_match_chars(), "accept"@]);
            assert(seq![ssh_match_chars(), "accept"@].drop_first() =~= seq!["accept"@]);
            assert(stmt_chars(r) =~= zone_rule_chars(zone@, iface@));
        }
        r
    } else if str_eq(zone, "lan") {
        exprs.push(Expr::Accept);
        let ghost ev = exprs@;
        let r = input_rule_stmt(exprs);
        proof {
            reveal_with_fuel(join_chars, 5);
            assert(exprs_views(ev) =~= seq![iif_match_chars(iface@), "accept"@]);
            assert(exprs_views(ev).drop_first() =~= seq!["accept"@]);
            assert(stmt_chars(r) =~= zone_rule_chars(zone@, iface@));
        }
        r
    } else {
        let mut ports: Vec<String> = Vec::new();
        ports.push("80".to_owned());
        ports.push("443".to_owned());
        proof {
            assert(ports.deep_view() =~= seq!["80"@, "443"@]);
        }
        exprs.push(match_expr("tcp", cmp_set("dport", ports)));
        exprs.push(Expr::Accept);
        let ghost ev = exprs@;
        let r = input_rule_stmt(exprs);
        proof {
            reveal_with_fuel(join_chars, 5);
            assert(exprs_views(ev) =~= seq![iif_match_chars(iface@), web_match_chars(), "accept"@]);
            assert(exprs_views(ev).drop_first() =~= seq![web_match_chars(), "accept"@]);
            assert(seq![web_match_chars(), "accept"@].drop_first() =~= seq!["accept"@]);
            assert(stmt_chars(r) =~= zone_rule_chars(zone@, iface@));
        }
        r
    }
}

/// Rendered text of the baseline rule that allows established and related
/// connection-tracking state.
pub open spec fn ct_rule_chars() -> Seq<char> {
    add_rule_chars(
        "inet"@,
        "filter"@,
        "input"@,
        match_chars("ct"@, cmp_set_chars("state"@, seq!["established"@, "related"@])) + " "@
            + "accept"@,
    )
}

/// Rendered text of the baseline rule that allows all loopback traffic.
pub open spec fn loopback_rule_chars() -> Seq<char> {
    add_rule_chars("inet"@, "filter"@, "input"@, iif_match_chars("lo"@) + " "@ + "accept"@)
}

/// The rendered baseline of every generation: flush and recreate the
/// `inet filter` table, recreate the three base chains with their hook and
/// default-policy clauses (`input` drop, `forward` drop, `output` accept),
/// then allow established/related state and loopback traffic.
pub open spec fn base_lines() -> Seq<Seq<char>> {
    seq![
        flush_table_chars("inet"@, "filter"@),
        add_table_chars("inet"@, "filter"@),
        add_chain_chars(
            "inet"@,
            "filter"@,
            "input"@,
            Some("type filter hook input priority 0; policy drop;"@),
        ),
        add_chain_chars(
            "inet"@,
            "filter"@,
            "forward"@,
            Some("type filter hook forward priority 0; policy drop;"@),
        ),
        add_chain_chars(
            "inet"@,
            "filter"@,
            "output"@,
            Some("type filter hook output priority 0; policy accept;"@),
        ),
        ct_rule_chars(),
        loopback_rule_chars(),
    ]
}

/// The rendered template rules of one zone, one per member interface, in
/// member order.
pub open spec fn zone_lines(zone: Seq<char>, members: Seq<Seq<char>>) -> Seq<Seq<char>> {
    members.map(|i: int, m: Seq<char>| zone_rule_chars(zone, m))
}

/// The rendered template rules of the listed zones, zone by zone.
pub open spec fn lines_for_zones(configs: Seq<InterfaceConfigV>, zs: Seq<Seq<char>>) -> Seq<
    Seq<char>,
>
    decreases zs.len(),
{
    if zs.len() == 0 {
        Seq::empty()
    } else {
        lines_for_zones(configs, zs.drop_last()) + zone_lines(
            zs.last(),
            zone_members(configs, zs.last()),
        )
    }
}

/// Every rendered line of a full policy generation for the given declared
/// interfaces: the baseline, then the zone template rules, zones in order
/// of first appearance.
pub open spec fn init_lines(configs: Seq<InterfaceConfigV>) -> Seq<Seq<char>> {
    base_lines() + lines_for_zones(configs, distinct_zones(configs))
}

/// Builds a brand-new batch holding one full policy generation for the
/// given declared interfaces.
pub fn build_init_batch(configs: &Vec<InterfaceConfig>) -> (r: Batch)
    ensures
        r@ == init_lines(configs.deep_view()),
{
    let ghost gcv = configs.deep_view();
    let ghost dz = distinct_zones(gcv);
    let mut batch = Batch::new();
    batch.add(
        &Stmt::Flush(Flush::Table { family: TableFamily::Inet, name: "filter".to_owned() }),
        None,
    );
    batch.add(
        &Stmt::AddTable(AddTable { family: TableFamily::Inet, name: "filter".to_owned() }),
        None,
    );
    batch.add(
        &Stmt::AddChain(
            AddChain {
                family: TableFamily::Inet,
                table: "filter".to_owned(),
                name: "input".to_owned(),
                handle: None,
                constraint: Some("type filter hook input priority 0; policy drop;".to_owned()),
            },
        ),
        None,
    );
    batch.add(
        &Stmt::AddChain(
            AddChain {
                family: TableFamily::Inet,
                table: "filter".to_owned(),
                name: "forward".to_owned(),
                handle: None,
                constraint: Some("type filter hook forward priority 0; policy drop;".to_owned()),
            },
        ),
        None,
    );
    batch.add(
        &Stmt::AddChain(
            AddChain {
                family: TableFamily::Inet,
                table: "filter".to_owned(),
                name: "output".to_owned(),
                handle: None,
                constraint: Some("type filter hook output priority 0; policy accept;".to_owned()),
            },
        ),
        None,
    );
    let mut states: Vec<String> = Vec::new();
    states.push("established".to_owned());
    states.push("related".to_owned());
    proof {
        assert(states.deep_view() =~= seq!["established"@, "related"@]);
    }
    let mut ct_exprs: Vec<Expr> = Vec::new();
    ct_exprs.push(match_expr("ct", cmp_set("state", states)));
    ct_exprs.push(Expr::Accept);
    let ghost ctv = ct_exprs@;
    let ct_stmt = input_rule_stmt(ct_exprs);
    proof {
        reveal_with_fuel(join_chars, 5);
            let ctm = match_chars("ct"@, cmp_set_chars("state"@, seq!["established"@, "related"@]));
        assert(exprs_views(ctv) =~= seq![ctm, "accept"@]);
        assert(exprs_views(ctv).drop_first() =~= seq!["accept"@]);
        assert(stmt_chars(ct_stmt) =~= ct_rule_chars());
    }
    batch.add(&ct_stmt, None);
    let mut lo_exprs: Vec<Expr> = Vec::new();
    lo_exprs.push(iif_match("lo"));
    lo_exprs.push(Expr::Accept);
    let ghost lov = lo_exprs@;
    let lo_stmt = input_rule_stmt(lo_exprs);
    proof {
        reveal_with_fuel(join_chars, 5);
            assert(exprs_views(lov) =~= seq![iif_match_chars("lo"@), "accept"@]);
        assert(exprs_views(lov).drop_first() =~= seq!["accept"@]);
        assert(stmt_chars(lo_stmt) =~= loopback_rule_chars());
    }
    batch.add(&lo_stmt, None);
    proof {
        assert(batch@ =~= base_lines());
        assert(dz.take(0) =~= Seq::<Seq<char>>::empty());
    }
    let groups = group_by_zone(configs);
    let mut gi: usize = 0;
    while gi < groups.len()
        invariant
            gi <= groups@.len(),
            gcv == configs.deep_view(),
            dz == distinct_zones(gcv),
            groups@.len() == dz.len(),
            forall|i: int| 0 <= i < groups@.len() ==> groups@[i].0@ == dz[i],
            forall|i: int|
                0 <= i < groups@.len() ==> groups@[i].1.deep_view() == zone_members(
                    gcv,
                    groups@[i].0@,
                ),
            batch@ == base_lines() + lines_for_zones(gcv, dz.take(gi as int)),
        decreases groups@.len() - gi,
    {
        let ghost z = dz[gi as int];
        let ghost members = zone_members(gcv, z);
        let group = &groups[gi];
        let mut mi: usize = 0;
        while mi < group.1.len()
            invariant
                mi <= group.1@.len(),
                gi < groups@.len(),
                group == groups@[gi as int],
                group.0@ == z,
                group.1.deep_view() == members,
                batch@ == base_lines() + lines_for_zones(gcv, dz.take(gi as int)) + zone_lines(
                    z,
                    members,
                ).take(mi as int),
            decreases group.1@.len() - mi,
        {
            let stmt = zone_rule_stmt(group.0.as_str(), group.1[mi].as_str());
            batch.add(&stmt, None);
            proof {
                assert(group.1@[mi as int]@ == members[mi as int]);
                assert(zone_lines(z, members).take(mi + 1) =~= zone_lines(z, members).take(
                    mi as int,
                ).push(zone_rule_chars(z, members[mi as int])));
                assert(batch@ =~= base_lines() + lines_for_zones(gcv, dz.take(gi as int))
                    + zone_lines(z, members).take(mi + 1));
            }
            mi += 1;
        }
        proof {
            assert(zone_lines(z, members).take(members.len() as int) =~= zone_lines(z, members));
            assert(dz.take(gi + 1).drop_last() =~= dz.take(gi as int));
            assert(dz.take(gi + 1).last() == z);
            assert(batch@ =~= base_lines() + lines_for_zones(gcv, dz.take(gi + 1)));
        }
        gi += 1;
    }
    proof {
        assert(dz.take(groups@.len() as int) =~= dz);
    }
    batch
}

} // verus!
