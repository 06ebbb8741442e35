//! The policy applier: owns the declared interface configuration and the
//! single authoritative rule batch, regenerates the batch deterministically
//! from configuration, appends administrator-requested rules, and answers
//! ruleset queries. Handing a rendered script to the host's
//! rule-application tool is the caller's step; the outcome of that step is
//! interpreted here.

use vstd::prelude::*;
use crate::ir::{
    add_rule_chars, cmp_str, cmp_str_chars, exprs_chars, exprs_views, match_chars, match_expr,
    opt_str_view, stmt_chars, Add, Batch, Expr, Stmt, TableFamily,
};
use crate::addr::{parse_addr_spec, parse_ip_prefix, IpPrefix};
use crate::text::{dec_digits, join_chars, lower_chars, lowercases_to, str_eq};
use crate::zones::{build_init_batch, init_lines, InterfaceConfig, InterfaceConfigV};
use crate::NetError;

verus! {

/// An action label names a supported verdict when it lower-cases (ASCII)
/// to `accept` or to `drop`.
pub open spec fn supported_action(a: Seq<char>) -> bool {
    lower_chars(a) == "accept"@ || lower_chars(a) == "drop"@
}

/// An action label asks for the accept verdict when it lower-cases (ASCII)
/// to `accept`.
pub open spec fn action_is_accept(a: Seq<char>) -> bool {
    lower_chars(a) == "accept"@
}

/// The rendered expressions of one administrator-requested rule, in order:
/// a protocol selector unless the protocol is empty or `any`, a destination
/// port selector if a port is given, a source address selector if a source
/// is given, a counter, and the verdict.
pub open spec fn rule_pieces(
    proto: Seq<char>,
    port: Option<u16>,
    src: Option<Seq<char>>,
    accept: bool,
) -> Seq<Seq<char>> {
    (if proto.len() > 0 && proto != "any"@ {
        seq![match_chars(proto, cmp_str_chars("protocol"@, proto))]
    } else {
        Seq::<Seq<char>>::empty()
    }) + (match port {
        Some(p) => seq![match_chars(proto, cmp_str_chars("dport"@, dec_digits(p as nat)))],
        None => Seq::<Seq<char>>::empty(),
    }) + (match src {
        Some(s) => seq![match_chars("ip"@, cmp_str_chars("saddr"@, s))],
        None => Seq::<Seq<char>>::empty(),
    }) + seq!["counter"@] + seq![if accept {
        "accept"@
    } else {
        "drop"@
    }]
}

/// The rendered line appended to the batch by one administrator-requested
/// rule.
pub open spec fn rule_line(
    chain: Seq<char>,
    proto: Seq<char>,
    port: Option<u16>,
    src: Option<Seq<char>>,
    accept: bool,
) -> Seq<char> {
    add_rule_chars(
        "inet"@,
        "filter"@,
        chain,
        join_chars(rule_pieces(proto, port, src, accept), " "@),
    )
}

/// The mathematical view of a `NetworkManager`: the declared interface
/// configurations and the rendered lines of the current batch.
pub struct NetworkManagerV {
    pub interfaces: Seq<InterfaceConfigV>,
    pub rules: Seq<Seq<char>>,
}

/// Owns the declared interface configuration and the current rule batch.
pub struct NetworkManager {
    interfaces: Vec<InterfaceConfig>,
    nftables_handle: Batch,
}

impl View for NetworkManager {
    type V = NetworkManagerV;

    closed spec fn view(&self) -> NetworkManagerV {
        NetworkManagerV {
            interfaces: self.interfaces.deep_view(),
            rules: self.nftables_handle@,
        }
    }
}

fn filter_rule_stmt(chain: &str, exprs: Vec<Expr>) -> (r: Stmt)
    ensures
        stmt_chars(r) == add_rule_chars("inet"@, "filter"@, chain@, exprs_chars(exprs@)),
{
    Stmt::Add(
        Add {
            family: TableFamily::Inet,
            table: "filter".to_owned(),
            chain: chain.to_owned(),
            handle: None,
            index: None,
            expr: exprs,
        },
    )
}

impl NetworkManager {
    /// A manager with no declared interfaces and an empty batch.
    pub fn new() -> (r: Self)
        ensures
            r@.interfaces == Seq::<InterfaceConfigV>::empty(),
            r@.rules == Seq::<Seq<char>>::empty(),
    {
        let r = NetworkManager { interfaces: Vec::new(), nftables_handle: Batch::new() };
        proof {
            assert(r@.interfaces =~= Seq::<InterfaceConfigV>::empty());
        }
        r
    }

    /// Replaces the declared interface configurations wholesale; the
    /// current batch is untouched.
    pub fn load_config(&mut self, interfaces: Vec<InterfaceConfig>) -> (r: Result<(), NetError>)
        ensures
            r is Ok,
            final(self)@.interfaces == interfaces.deep_view(),
            final(self)@.rules == old(self)@.rules,
    {
        self.interfaces = interfaces;
        Ok(())
    }

    /// Rebuilds the batch from scratch out of the declared interfaces —
    /// baseline rules, then the zone template rules — and replaces the
    /// stored batch wholesale.
    pub fn initialize_nftables(&mut self) -> (r: Result<(), NetError>)
        ensures
            r is Ok,
            final(self)@.interfaces == old(self)@.interfaces,
            final(self)@.rules == init_lines(old(self)@.interfaces),
    {
        let batch = build_init_batch(&self.interfaces);
        self.nftables_handle = batch;
        Ok(())
    }

    /// Appends one rule to a copy of the current batch and stores the
    /// copy. The action must lower-case (ASCII) to `accept` or `drop`; any
    /// other action is refused with `UnsupportedAction` and the stored
    /// batch is left unmodified.
    pub fn add_firewall_rule(
        &mut self,
        chain: &str,
        protocol: &str,
        port: Option<u16>,
        source: Option<&str>,
        action: &str,
    ) -> (r: Result<(), NetError>)
        ensures
            final(self)@.interfaces == old(self)@.interfaces,
            r is Ok <==> supported_action(action@),
            supported_action(action@) ==> final(self)@.rules == old(self)@.rules.push(
                rule_line(
                    chain@,
                    protocol@,
                    port,
                    opt_str_view(source),
                    action_is_accept(action@),
                ),
            ),
            !supported_action(action@) ==> r == Err::<(), NetError>(NetError::UnsupportedAction)
                && final(self)@.rules == old(self)@.rules,
    {
        let mut exprs: Vec<Expr> = Vec::new();
        if !protocol.is_empty() && !str_eq(protocol, "any") {
            exprs.push(match_expr(protocol, cmp_str("protocol", protocol)));
        }
        if let Some(p) = port {
            let ps = crate::text::u64_to_string(p as u64);
            exprs.push(match_expr(protocol, cmp_str("dport", ps.as_str())));
        }
        if let Some(s) = source {
            exprs.push(match_expr("ip", cmp_str("saddr", s)));
        }
        exprs.push(Expr::Counter);
        let accept = lowercases_to(action, "accept");
        if accept {
            exprs.push(Expr::Accept);
        } else if lowercases_to(action, "drop") {
            exprs.push(Expr::Drop);
        } else {
            return Err(NetError::UnsupportedAction);
        }
        let ghost ev = exprs@;
        let stmt = filter_rule_stmt(chain, exprs);
        proof {
            reveal_with_fuel(join_chars, 8);
            assert(exprs_views(ev) =~= rule_pieces(
                protocol@,
                port,
                opt_str_view(source),
                action_is_accept(action@),
            ));
            assert(stmt_chars(stmt) =~= rule_line(
                chain@,
                protocol@,
                port,
                opt_str_view(source),
                action_is_accept(action@),
            ));
        }
        let mut batch = self.nftables_handle.clone();
        batch.add(&stmt, None);
        self.nftables_handle = batch;
        Ok(())
    }

    /// Decides a rule deletion against the live ruleset: handles are
    /// assigned by the external rule-application tool when a rule is
    /// installed, so the caller passes the handles the live ruleset
    /// carries. Deletion is owed exactly when some live rule carries the
    /// requested handle; otherwise the call fails with `NotFound` and the
    /// caller issues no removal. The removal itself is the tool's step:
    /// its outcome is interpreted by `apply_outcome`, and its effect on
    /// the live handles is modeled by `remove_handle`. The stored batch
    /// is untouched either way: it is regenerated from declared state,
    /// never edited in place.
    pub fn delete_firewall_rule(&self, rule_handle: u32, handles: &Vec<u32>) -> (r: Result<
        (),
        NetError,
    >)
        ensures
            r is Ok <==> handles@.contains(rule_handle),
            !handles@.contains(rule_handle) ==> r == Err::<(), NetError>(NetError::NotFound),
    {
        let mut i: usize = 0;
        while i < handles.len()
            invariant
                i <= handles@.len(),
                forall|t: int| 0 <= t < i ==> handles@[t] != rule_handle,
            decreases handles@.len() - i,
        {
            if handles[i] == rule_handle {
                return Ok(());
            }
            i += 1;
        }
        proof {
            assert(!handles@.contains(rule_handle)) by {
                if handles@.contains(rule_handle) {
                    let t = choose|t: int|
                        0 <= t < handles@.len() && handles@[t] == rule_handle;
                    assert(handles@[t] == rule_handle);
                }
            }
        }
        Err(NetError::NotFound)
    }

    /// Answers a ruleset query: prefers the live ruleset lines when the
    /// caller obtained them from the rule-application tool, and falls back
    /// to the stored batch's rendered lines when the tool was unavailable.
    pub fn get_nftables_rules(&self, live: Option<Vec<String>>) -> (r: Vec<String>)
        ensures
            match live {
                Some(l) => r.deep_view() == l.deep_view(),
                None => r.deep_view() == self@.rules,
            },
    {
        match live {
            Some(l) => l,
            None => self.nftables_handle.commands(),
        }
    }

    /// The whole current batch as one script, for the rule-application
    /// tool's atomic installation.
    pub fn render_script(&self) -> (r: String)
        ensures
            r@ == join_chars(self@.rules, "\n"@),
    {
        self.nftables_handle.script()
    }
}

/// Plans the setup work for one declared interface: the link is brought
/// up, and, when a static address is declared, every existing address is
/// to be replaced by the parsed one. A malformed `ip/prefix` string fails
/// with `InvalidAddress` before any kernel mutation is planned.
pub fn plan_interface_setup(config: &InterfaceConfig) -> (r: Result<Option<IpPrefix>, NetError>)
    ensures
        match config.address {
            Some(a) => match parse_addr_spec(a@) {
                Some(p) => r == Ok::<Option<IpPrefix>, NetError>(Some(p)),
                None => r == Err::<Option<IpPrefix>, NetError>(NetError::InvalidAddress),
            },
            None => r == Ok::<Option<IpPrefix>, NetError>(None),
        },
{
    match &config.address {
        Some(a) => match parse_ip_prefix(a.as_str()) {
            Ok(p) => Ok(Some(p)),
            Err(e) => Err(e),
        },
        None => Ok(None),
    }
}

/// Interprets the rule-application tool's outcome: on success the tool's
/// output is returned, on failure the call fails with `ApplicationError`
/// carrying the tool's diagnostic text — the previously applied ruleset
/// is then still live, since the tool installs a script atomically or not
/// at all.
pub fn apply_outcome(success: bool, stdout: String, stderr: String) -> (r: Result<
    String,
    NetError,
>)
    ensures
        success ==> r == Ok::<String, NetError>(stdout),
        !success ==> r == Err::<String, NetError>(NetError::ApplicationError(stderr)),
{
    if success {
        Ok(stdout)
    } else {
        Err(NetError::ApplicationError(stderr))
    }
}

/// Holds of a handle exactly when it differs from `h`.
pub open spec fn other_handle_pred(h: u32) -> spec_fn(u32) -> bool {
    |x: u32| x != h
}

/// The live handles after the rule-application tool removes the rule
/// carrying `h`: every rule with that handle leaves, all others stay, in
/// order.
pub open spec fn removed_handles(handles: Seq<u32>, h: u32) -> Seq<u32> {
    handles.filter(other_handle_pred(h))
}

/// Computes the live handles after a deletion, modeling the tool's
/// removal: the deleted handle is gone, every other handle stays.
pub fn remove_handle(handles: &Vec<u32>, h: u32) -> (r: Vec<u32>)
    ensures
        r@ == removed_handles(handles@, h),
{
    let mut r: Vec<u32> = Vec::new();
    let mut i: usize = 0;
    proof {
        reveal(Seq::filter);
        assert(handles@.take(0) =~= Seq::<u32>::empty());
        assert(r@ =~= handles@.take(0).filter(other_handle_pred(h)));
    }
    while i < handles.len()
        invariant
            i <= handles@.len(),
            r@ == handles@.take(i as int).filter(other_handle_pred(h)),
        decreases handles@.len() - i,
    {
        proof {
            reveal(Seq::filter);
            assert(handles@.take(i + 1).drop_last() =~= handles@.take(i as int));
            assert(handles@.take(i + 1).last() == handles@[i as int]);
        }
        if handles[i] != h {
            r.push(handles[i]);
            proof {
                assert(r@ =~= handles@.take(i + 1).filter(other_handle_pred(h)));
            }
        } else {
            proof {
                assert(r@ =~= handles@.take(i + 1).filter(other_handle_pred(h)));
            }
        }
        i += 1;
    }
    proof {
        assert(handles@.take(i as int) =~= handles@);
    }
    r
}

/// After a deletion, no live rule carries the deleted handle, and every
/// other handle is live exactly as before.
pub proof fn lemma_removed_handles(handles: Seq<u32>, h: u32)
    ensures
        !removed_handles(handles, h).contains(h),
        forall|x: u32|
            x != h ==> (removed_handles(handles, h).contains(x) <==> handles.contains(x)),
    decreases handles.len(),
{
    reveal(Seq::filter);
    let rem = removed_handles(handles, h);
    if handles.len() == 0 {
        assert(!rem.contains(h)) by {
            if rem.contains(h) {
                let i = choose|i: int| 0 <= i < rem.len() && rem[i] == h;
            }
        }
        assert forall|x: u32| x != h implies (rem.contains(x) <==> handles.contains(x)) by {
            if rem.contains(x) {
                let i = choose|i: int| 0 <= i < rem.len() && rem[i] == x;
            }
            if handles.contains(x) {
                let i = choose|i: int| 0 <= i < handles.len() && handles[i] == x;
            }
        }
    } else {
        lemma_removed_handles(handles.drop_last(), h);
        let sub = removed_handles(handles.drop_last(), h);
        let last = handles.last();
        assert(rem == if last != h {
            sub.push(last)
        } else {
            sub
        });
        assert(!rem.contains(h)) by {
            if rem.contains(h) {
                let i = choose|i: int| 0 <= i < rem.len() && rem[i] == h;
                if last != h {
                    if i < sub.len() {
                        assert(sub[i] == h);
                        assert(sub.contains(h));
                    } else {
                        assert(rem[i] == last);
                    }
                } else {
                    assert(sub[i] == h);
                    assert(sub.contains(h));
                }
            }
        }
        assert forall|x: u32| x != h implies (rem.contains(x) <==> handles.contains(x)) by {
            if rem.contains(x) {
                let i = choose|i: int| 0 <= i < rem.len() && rem[i] == x;
                if last != h && i == sub.len() {
                    assert(handles[handles.len() - 1] == x);
                } else {
                    assert(sub[i] == x);
                    assert(sub.contains(x));
                    assert(handles.drop_last().contains(x));
                    let j = choose|j: int|
                        0 <= j < handles.drop_last().len() && handles.drop_last()[j] == x;
                    assert(handles[j] == x);
                }
            }
            if handles.contains(x) {
                let i = choose|i: int| 0 <= i < handles.len() && handles[i] == x;
                if i == handles.len() - 1 {
                    assert(last == x);
                    assert(rem[rem.len() - 1] == x);
                } else {
                    assert(handles.drop_last()[i] == x);
                    assert(handles.drop_last().contains(x));
                    assert(sub.contains(x));
                    let j = choose|j: int| 0 <= j < sub.len() && sub[j] == x;
                    assert(rem[j] == x);
                }
            }
        }
    }
}

} // verus!
