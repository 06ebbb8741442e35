//! The kernel link inventory model: plain records of observed kernel state
//! (links and addresses), assembly of point-in-time interface snapshots,
//! name-to-index resolution, and the full-replace semantics of address
//! configuration with its invariant.

use vstd::prelude::*;
use crate::text::{byte_to_hex, hex_byte, join_chars, join_with, str_eq};
use crate::NetError;

verus! {

/// One link as the kernel reports it: its index, name, operational state,
/// and hardware address bytes.
#[derive(Debug, Clone)]
pub struct LinkRecord {
    pub index: u32,
    pub name: String,
    pub is_up: bool,
    pub mac: Vec<u8>,
}

/// The mathematical view of a `LinkRecord`.
#[verifier::ext_equal]
pub struct LinkRecordV {
    pub index: u32,
    pub name: Seq<char>,
    pub is_up: bool,
    pub mac: Seq<u8>,
}

impl View for LinkRecord {
    type V = LinkRecordV;

    open spec fn view(&self) -> LinkRecordV {
        LinkRecordV { index: self.index, name: self.name@, is_up: self.is_up, mac: self.mac@ }
    }
}

impl DeepView for LinkRecord {
    type V = LinkRecordV;

    open spec fn deep_view(&self) -> LinkRecordV {
        self.view()
    }
}

/// One address as the kernel reports it: the index of the link it belongs
/// to and its `ip/prefix` text.
#[derive(Debug, Clone)]
pub struct AddrRecord {
    pub if_index: u32,
    pub address: String,
}

/// The mathematical view of an `AddrRecord`.
#[verifier::ext_equal]
pub struct AddrRecordV {
    pub if_index: u32,
    pub address: Seq<char>,
}

impl View for AddrRecord {
    type V = AddrRecordV;

    open spec fn view(&self) -> AddrRecordV {
        AddrRecordV { if_index: self.if_index, address: self.address@ }
    }
}

impl DeepView for AddrRecord {
    type V = AddrRecordV;

    open spec fn deep_view(&self) -> AddrRecordV {
        self.view()
    }
}

/// Observed state of one interface: name, its addresses in kernel order,
/// the up/down flag, and the hardware address as colon-separated hex
/// octets. A snapshot, produced fresh on every inventory query.
#[derive(Debug, Clone)]
pub struct InterfaceInfo {
    pub name: String,
    pub addresses: Vec<String>,
    pub is_up: bool,
    pub mac_address: String,
}

/// The mathematical view of an `InterfaceInfo`.
#[verifier::ext_equal]
pub struct InterfaceInfoV {
    pub name: Seq<char>,
    pub addresses: Seq<Seq<char>>,
    pub is_up: bool,
    pub mac_address: Seq<char>,
}

impl View for InterfaceInfo {
    type V = InterfaceInfoV;

    open spec fn view(&self) -> InterfaceInfoV {
        InterfaceInfoV {
            name: self.name@,
            addresses: self.addresses.deep_view(),
            is_up: self.is_up,
            mac_address: self.mac_address@,
        }
    }
}

impl DeepView for InterfaceInfo {
    type V = InterfaceInfoV;

    open spec fn deep_view(&self) -> InterfaceInfoV {
        self.view()
    }
}

/// Each byte of a hardware address as two lower-case hex digits.
pub open spec fn hex_pieces(mac: Seq<u8>) -> Seq<Seq<char>> {
    mac.map(|i: int, b: u8| hex_byte(b))
}

/// The rendering of a hardware address: each byte as two lower-case hex
/// digits, bytes joined with colons.
pub open spec fn mac_chars(mac: Seq<u8>) -> Seq<char> {
    join_chars(hex_pieces(mac), ":"@)
}

/// Renders a hardware address as colon-separated hex octets.
pub fn format_mac(mac: &Vec<u8>) -> (r: String)
    ensures
        r@ == mac_chars(mac@),
{
    let mut parts: Vec<String> = Vec::new();
    let mut i: usize = 0;
    proof {
        assert(parts.deep_view() =~~= hex_pieces(mac@.take(0)));
    }
    while i < mac.len()
        invariant
            i <= mac@.len(),
            parts@.len() == i,
            parts.deep_view() == hex_pieces(mac@.take(i as int)),
        decreases mac@.len() - i,
    {
        let ghost pre = parts.deep_view();
        parts.push(byte_to_hex(mac[i]));
        proof {
            assert(parts@.len() == i + 1);
            assert forall|k: int| 0 <= k < i implies parts.deep_view()[k] == hex_pieces(
                mac@.take(i + 1),
            )[k] by {
                assert(parts.deep_view()[k] == pre[k]);
                assert(pre[k] == hex_pieces(mac@.take(i as int))[k]);
            }
            assert(parts.deep_view() =~~= hex_pieces(mac@.take(i + 1)));
        }
        i += 1;
    }
    proof {
        assert(mac@.take(i as int) =~= mac@);
    }
    join_with(&parts, ":")
}

/// Holds of an address record exactly when it belongs to link `idx`.
pub open spec fn on_link_pred(idx: u32) -> spec_fn(AddrRecordV) -> bool {
    |a: AddrRecordV| a.if_index == idx
}

/// Holds of an address record exactly when it belongs to another link.
pub open spec fn off_link_pred(idx: u32) -> spec_fn(AddrRecordV) -> bool {
    |a: AddrRecordV| a.if_index != idx
}

/// The addresses attached to link `idx`, in record order.
pub open spec fn addresses_of(addrs: Seq<AddrRecordV>, idx: u32) -> Seq<Seq<char>> {
    addrs.filter(on_link_pred(idx)).map(|i: int, a: AddrRecordV| a.address)
}

/// The snapshot of one link: its name and state, the addresses whose
/// record carries its index, and its rendered hardware address.
pub open spec fn info_of(link: LinkRecordV, addrs: Seq<AddrRecordV>) -> InterfaceInfoV {
    InterfaceInfoV {
        name: link.name,
        addresses: addresses_of(addrs, link.index),
        is_up: link.is_up,
        mac_address: mac_chars(link.mac),
    }
}

/// The snapshots of all reported links, in link order.
pub open spec fn infos_of(links: Seq<LinkRecordV>, addrs: Seq<AddrRecordV>) -> Seq<
    InterfaceInfoV,
> {
    links.map(|i: int, l: LinkRecordV| info_of(l, addrs))
}

fn addresses_for(addrs: &Vec<AddrRecord>, idx: u32) -> (r: Vec<String>)
    ensures
        r.deep_view() == addresses_of(addrs.deep_view(), idx),
{
    let ghost av = addrs.deep_view();
    let mut r: Vec<String> = Vec::new();
    let mut j: usize = 0;
    proof {
        reveal(Seq::filter);
        assert(av.take(0) =~= Seq::<AddrRecordV>::empty());
        assert(r.deep_view() =~= addresses_of(av.take(0), idx));
    }
    while j < addrs.len()
        invariant
            j <= av.len(),
            av.len() == addrs@.len(),
            av == addrs.deep_view(),
            r@.len() == r.deep_view().len(),
            r.deep_view() == addresses_of(av.take(j as int), idx),
        decreases av.len() - j,
    {
        let ghost pre = r.deep_view();
        proof {
            reveal(Seq::filter);
            assert(av.take(j + 1).drop_last() =~= av.take(j as int));
            assert(av.take(j + 1).last() == av[j as int]);
            assert(av[j as int] == addrs@[j as int].deep_view());
        }
        if addrs[j].if_index == idx {
            r.push(addrs[j].address.clone());
            proof {
                reveal(Seq::filter);
                let fnext = av.take(j + 1).filter(on_link_pred(idx));
                let fpre = av.take(j as int).filter(on_link_pred(idx));
                let target = addresses_of(av.take(j + 1), idx);
                assert(fnext == fpre.push(av[j as int]));
                assert(pre.len() == fpre.len());
                assert(target.len() == fnext.len());
                assert(r@.len() == pre.len() + 1);
                assert(r.deep_view().len() == r@.len());
                assert forall|k: int| 0 <= k < pre.len() implies r.deep_view()[k] == target[k] by {
                    assert(r.deep_view()[k] == r@[k].deep_view());
                    assert(r.deep_view()[k] == pre[k]);
                    assert(pre[k] == fpre[k].address);
                    assert(fnext[k] == fpre[k]);
                    assert(target[k] == fnext[k].address);
                }
                assert(r.deep_view()[pre.len() as int] == r@[pre.len() as int].deep_view());
                assert(r@[pre.len() as int]@ == addrs@[j as int].address@);
                assert(fnext[pre.len() as int] == av[j as int]);
                assert(target[pre.len() as int] == av[j as int].address);
                assert(av[j as int].address == addrs@[j as int].address@);
                assert(r.deep_view() =~= target);
            }
        } else {
            proof {
                reveal(Seq::filter);
                assert(av.take(j + 1).filter(on_link_pred(idx)) == av.take(j as int).filter(
                    on_link_pred(idx),
                ));
                assert(r.deep_view() =~~= addresses_of(av.take(j + 1), idx));
            }
        }
        j += 1;
    }
    proof {
        assert(av.take(j as int) =~= av);
    }
    r
}

/// Assembles the interface inventory: one snapshot per reported link, in
/// link order, each carrying the addresses whose kernel index matches.
pub fn get_interfaces(links: &Vec<LinkRecord>, addrs: &Vec<AddrRecord>) -> (r: Vec<InterfaceInfo>)
    ensures
        r.deep_view() == infos_of(links.deep_view(), addrs.deep_view()),
{
    let ghost lv = links.deep_view();
    let ghost av = addrs.deep_view();
    let mut r: Vec<InterfaceInfo> = Vec::new();
    let mut i: usize = 0;
    proof {
        assert(r.deep_view() =~~= infos_of(lv.take(0), av));
    }
    while i < links.len()
        invariant
            i <= lv.len(),
            lv.len() == links@.len(),
            lv == links.deep_view(),
            av == addrs.deep_view(),
            r@.len() == i,
            r.deep_view() == infos_of(lv.take(i as int), av),
        decreases lv.len() - i,
    {
        let ghost pre = r.deep_view();
        let link = &links[i];
        let info = InterfaceInfo {
            name: link.name.clone(),
            addresses: addresses_for(addrs, link.index),
            is_up: link.is_up,
            mac_address: format_mac(&link.mac),
        };
        proof {
            assert(lv[i as int] == links@[i as int].deep_view());
            assert(info.deep_view().addresses =~= info_of(lv[i as int], av).addresses);
            assert(info.deep_view() =~= info_of(lv[i as int], av));
        }
        r.push(info);
        proof {
            let target = infos_of(lv.take(i + 1), av);
            assert(target.len() == i + 1);
            assert(r@.len() == i + 1);
            assert(r.deep_view().len() == r@.len());
            assert forall|k: int| 0 <= k < i implies r.deep_view()[k] == target[k] by {
                assert(r.deep_view()[k] == r@[k].deep_view());
                assert(r.deep_view()[k] == pre[k]);
                assert(pre[k] == info_of(lv.take(i as int)[k], av));
                assert(lv.take(i as int)[k] == lv[k]);
                assert(lv.take(i + 1)[k] == lv[k]);
                assert(target[k] == info_of(lv[k], av));
            }
            assert(r.deep_view()[i as int] == r@[i as int].deep_view());
            assert(target[i as int] == info_of(lv[i as int], av));
            assert(r.deep_view() =~= target);
        }
        i += 1;
    }
    proof {
        assert(lv.take(i as int) =~= lv);
        assert(infos_of(lv.take(i as int), av) == infos_of(lv, av));
    }
    r
}

/// The index of the first link with the given name.
pub open spec fn find_link(links: Seq<LinkRecordV>, name: Seq<char>) -> Option<u32>
    decreases links.len(),
{
    if links.len() == 0 {
        None
    } else if links[0].name == name {
        Some(links[0].index)
    } else {
        find_link(links.drop_first(), name)
    }
}

fn find_link_from(links: &Vec<LinkRecord>, name: &str, k: usize) -> (r: Option<u32>)
    requires
        k <= links@.len(),
    ensures
        r == find_link(links.deep_view().skip(k as int), name@),
    decreases links@.len() - k,
{
    if k == links.len() {
        proof {
            assert(links.deep_view().skip(k as int) =~= Seq::<LinkRecordV>::empty());
        }
        None
    } else {
        proof {
            assert(links.deep_view().skip(k as int)[0] == links.deep_view()[k as int]);
            assert(links.deep_view().skip(k as int).drop_first() =~= links.deep_view().skip(
                k + 1,
            ));
        }
        if str_eq(links[k].name.as_str(), name) {
            Some(links[k].index)
        } else {
            find_link_from(links, name, k + 1)
        }
    }
}

/// Resolves an interface name to its kernel index: the first link with
/// that name; `NotFound` exactly when no link carries the name.
pub fn get_interface_index(links: &Vec<LinkRecord>, name: &str) -> (r: Result<u32, NetError>)
    ensures
        match find_link(links.deep_view(), name@) {
            Some(i) => r == Ok::<u32, NetError>(i),
            None => r == Err::<u32, NetError>(NetError::NotFound),
        },
{
    let o = find_link_from(links, name, 0);
    proof {
        assert(links.deep_view().skip(0) =~= links.deep_view());
    }
    match o {
        Some(i) => Ok(i),
        None => Err(NetError::NotFound),
    }
}

/// The address records after configuring one address on link `idx`:
/// every record of that link is deleted, then the one requested address
/// is added — a full replace, never additive.
pub open spec fn replaced_addresses(
    addrs: Seq<AddrRecordV>,
    idx: u32,
    address: Seq<char>,
) -> Seq<AddrRecordV> {
    addrs.filter(off_link_pred(idx)).push(AddrRecordV { if_index: idx, address })
}

/// Computes the record set after a full address replacement on one link.
pub fn replace_addresses(addrs: &Vec<AddrRecord>, idx: u32, address: String) -> (r: Vec<
    AddrRecord,
>)
    ensures
        r.deep_view() == replaced_addresses(addrs.deep_view(), idx, address@),
{
    let ghost av = addrs.deep_view();
    let mut r: Vec<AddrRecord> = Vec::new();
    let mut j: usize = 0;
    proof {
        reveal(Seq::filter);
        assert(av.take(0) =~= Seq::<AddrRecordV>::empty());
        assert(r.deep_view() =~= av.take(0).filter(off_link_pred(idx)));
    }
    while j < addrs.len()
        invariant
            j <= av.len(),
            av.len() == addrs@.len(),
            av == addrs.deep_view(),
            r@.len() == r.deep_view().len(),
            r.deep_view() == av.take(j as int).filter(off_link_pred(idx)),
        decreases av.len() - j,
    {
        let ghost pre = r.deep_view();
        proof {
            reveal(Seq::filter);
            assert(av.take(j + 1).drop_last() =~= av.take(j as int));
            assert(av.take(j + 1).last() == av[j as int]);
            assert(av[j as int] == addrs@[j as int].deep_view());
        }
        if addrs[j].if_index != idx {
            let rec = AddrRecord {
                if_index: addrs[j].if_index,
                address: addrs[j].address.clone(),
            };
            r.push(rec);
            proof {
                reveal(Seq::filter);
                let fnext = av.take(j + 1).filter(off_link_pred(idx));
                let fpre = av.take(j as int).filter(off_link_pred(idx));
                assert(fnext == fpre.push(av[j as int]));
                assert(pre.len() == fpre.len());
                assert(r@.len() == pre.len() + 1);
                assert(r.deep_view().len() == r@.len());
                assert forall|k: int| 0 <= k < pre.len() implies r.deep_view()[k] == fnext[k] by {
                    assert(r.deep_view()[k] == r@[k].deep_view());
                    assert(r.deep_view()[k] == pre[k]);
                    assert(pre[k] == fpre[k]);
                    assert(fnext[k] == fpre[k]);
                }
                assert(r.deep_view()[pre.len() as int] == r@[pre.len() as int].deep_view());
                assert(r@[pre.len() as int].deep_view() =~= av[j as int]);
                assert(fnext[pre.len() as int] == av[j as int]);
                assert(r.deep_view() =~= fnext);
            }
        } else {
            proof {
                reveal(Seq::filter);
                assert(av.take(j + 1).filter(off_link_pred(idx)) == av.take(j as int).filter(
                    off_link_pred(idx),
                ));
                assert(r.deep_view() =~= av.take(j + 1).filter(off_link_pred(idx)));
            }
        }
        j += 1;
    }
    proof {
        assert(av.take(j as int) =~= av);
    }
    r.push(AddrRecord { if_index: idx, address });
    proof {
        assert(r.deep_view() =~= replaced_addresses(av, idx, address@));
    }
    r
}

proof fn lemma_filter_off_then_on(addrs: Seq<AddrRecordV>, idx: u32)
    ensures
        addrs.filter(off_link_pred(idx)).filter(on_link_pred(idx)) =~= Seq::<
            AddrRecordV,
        >::empty(),
    decreases addrs.len(),
{
    reveal(Seq::filter);
    if addrs.len() > 0 {
        lemma_filter_off_then_on(addrs.drop_last(), idx);
        let sub = addrs.drop_last().filter(off_link_pred(idx));
        if off_link_pred(idx)(addrs.last()) {
            assert(addrs.filter(off_link_pred(idx)) == sub.push(addrs.last()));
            assert(sub.push(addrs.last()).drop_last() =~= sub);
        }
    }
}

proof fn lemma_filter_off_then_other(addrs: Seq<AddrRecordV>, idx: u32, j: u32)
    requires
        j != idx,
    ensures
        addrs.filter(off_link_pred(idx)).filter(on_link_pred(j)) =~= addrs.filter(
            on_link_pred(j),
        ),
    decreases addrs.len(),
{
    reveal(Seq::filter);
    if addrs.len() > 0 {
        lemma_filter_off_then_other(addrs.drop_last(), idx, j);
        let sub = addrs.drop_last().filter(off_link_pred(idx));
        if off_link_pred(idx)(addrs.last()) {
            assert(addrs.filter(off_link_pred(idx)) == sub.push(addrs.last()));
            assert(sub.push(addrs.last()).drop_last() =~= sub);
        }
    }
}

/// The full-replace invariant: after configuring one address on a link,
/// that link reports exactly the configured address and no other, and
/// every other link keeps its addresses untouched.
pub proof fn lemma_full_replace(addrs: Seq<AddrRecordV>, idx: u32, address: Seq<char>)
    ensures
        addresses_of(replaced_addresses(addrs, idx, address), idx) == seq![address],
        forall|j: u32|
            j != idx ==> addresses_of(replaced_addresses(addrs, idx, address), j)
                == addresses_of(addrs, j),
{
    reveal(Seq::filter);
    let kept = addrs.filter(off_link_pred(idx));
    let added = AddrRecordV { if_index: idx, address };
    let rep = replaced_addresses(addrs, idx, address);
    assert(rep.drop_last() =~= kept);
    assert(rep.last() == added);
    lemma_filter_off_then_on(addrs, idx);
    assert(rep.filter(on_link_pred(idx)) =~= seq![added]);
    assert(addresses_of(rep, idx) =~= seq![address]);
    assert forall|j: u32| j != idx implies addresses_of(rep, j) == addresses_of(addrs, j) by {
        lemma_filter_off_then_other(addrs, idx, j);
        assert(rep.filter(on_link_pred(j)) =~= addrs.filter(on_link_pred(j)));
        assert(addresses_of(rep, j) =~= addresses_of(addrs, j));
    }
}

/// Kernel link names are unique: an interface is identified by its name.
pub open spec fn unique_link_names(links: Seq<LinkRecordV>) -> bool {
    forall|i: int, j: int| 0 <= i < j < links.len() ==> links[i].name != links[j].name
}

/// Kernel link indexes are unique: the kernel assigns each link its own.
pub open spec fn unique_link_indexes(links: Seq<LinkRecordV>) -> bool {
    forall|i: int, j: int| 0 <= i < j < links.len() ==> links[i].index != links[j].index
}

/// With unique names, resolving a link's own name finds exactly that
/// link's index.
pub proof fn lemma_find_link_unique(links: Seq<LinkRecordV>, k: int)
    requires
        0 <= k < links.len(),
        unique_link_names(links),
    ensures
        find_link(links, links[k].name) == Some(links[k].index),
    decreases links.len(),
{
    if k > 0 {
        assert(links[0].name != links[k].name);
        assert(links.drop_first()[k - 1] == links[k]);
        assert(unique_link_names(links.drop_first())) by {
            assert forall|i: int, j: int|
                0 <= i < j < links.drop_first().len() implies links.drop_first()[i].name
                != links.drop_first()[j].name by {
                assert(links.drop_first()[i] == links[i + 1]);
                assert(links.drop_first()[j] == links[j + 1]);
            }
        }
        lemma_find_link_unique(links.drop_first(), k - 1);
    }
}

/// The full-replace invariant end to end: a kernel link is identified by
/// its unique name and carries its own kernel index, so resolving a
/// declared interface by name, replacing that link's addresses with the
/// one configured address, and listing the inventory reports exactly
/// that address on exactly that interface — and every other interface
/// keeps its name and its addresses.
pub proof fn lemma_configure_then_list(
    links: Seq<LinkRecordV>,
    addrs: Seq<AddrRecordV>,
    k: int,
    address: Seq<char>,
)
    requires
        0 <= k < links.len(),
        unique_link_names(links),
        unique_link_indexes(links),
    ensures
        find_link(links, links[k].name) == Some(links[k].index),
        infos_of(links, replaced_addresses(addrs, links[k].index, address))[k].name == links[
            k].name,
        infos_of(links, replaced_addresses(addrs, links[k].index, address))[k].addresses == seq![
            address,
        ],
        forall|t: int|
            0 <= t < links.len() && t != k ==> infos_of(
                links,
                replaced_addresses(addrs, links[k].index, address),
            )[t].name != links[k].name,
        forall|t: int|
            0 <= t < links.len() && t != k ==> infos_of(
                links,
                replaced_addresses(addrs, links[k].index, address),
            )[t].addresses == addresses_of(addrs, links[t].index),
{
    lemma_find_link_unique(links, k);
    lemma_full_replace(addrs, links[k].index, address);
    let rep = replaced_addresses(addrs, links[k].index, address);
    let infos = infos_of(links, rep);
    assert(infos[k] == info_of(links[k], rep));
    assert forall|t: int| 0 <= t < links.len() && t != k implies infos[t].name != links[k].name
        by {
        assert(infos[t] == info_of(links[t], rep));
    }
    assert forall|t: int|
        0 <= t < links.len() && t != k implies infos[t].addresses == addresses_of(
        addrs,
        links[t].index,
    ) by {
        assert(infos[t] == info_of(links[t], rep));
        assert(links[t].index != links[k].index);
        assert(addresses_of(rep, links[t].index) == addresses_of(addrs, links[t].index));
    }
}

} // verus!
