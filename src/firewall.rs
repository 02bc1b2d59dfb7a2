//! The SDN ipsets in the shape of the legacy firewall configuration.

use vstd::prelude::*;

use crate::keyed::{keyed_insert, keyed_map, unique_keys};

verus! {

/// One entry of a legacy ipset.
pub struct LegacyIpsetEntry {
    pub nomatch: bool,
    pub cidr: String,
    pub comment: Option<String>,
}

/// The address of an ipset entry; an address range comes as the CIDRs that cover it.
pub enum IpsetAddress {
    Alias(String),
    Cidr(String),
    Range(Vec<String>),
}

/// An entry of an SDN ipset.
pub struct IpsetEntry {
    pub nomatch: bool,
    pub address: IpsetAddress,
    pub comment: Option<String>,
}

/// An SDN ipset.
pub struct Ipset {
    pub name: String,
    pub comment: Option<String>,
    pub entries: Vec<IpsetEntry>,
}

/// The legacy entries one ipset entry becomes: one per CIDR of a range, else one.
pub open spec fn legacy_entries_spec(e: IpsetEntry) -> Seq<LegacyIpsetEntry> {
    match e.address {
        IpsetAddress::Alias(name) => seq![
            LegacyIpsetEntry { nomatch: e.nomatch, cidr: name, comment: e.comment },
        ],
        IpsetAddress::Cidr(cidr) => seq![
            LegacyIpsetEntry { nomatch: e.nomatch, cidr, comment: e.comment },
        ],
        IpsetAddress::Range(cidrs) => cidrs@.map_values(
            |cidr: String| LegacyIpsetEntry { nomatch: e.nomatch, cidr, comment: e.comment },
        ),
    }
}

/// The legacy entries of a list of ipset entries, in order.
pub open spec fn flat_entries_spec(es: Seq<IpsetEntry>) -> Seq<LegacyIpsetEntry>
    decreases es.len(),
{
    if es.len() == 0 {
        Seq::empty()
    } else {
        flat_entries_spec(es.drop_last()) + legacy_entries_spec(es.last())
    }
}

fn clone_comment(c: &Option<String>) -> (r: Option<String>)
    ensures
        r == *c,
{
    match c {
        Some(s) => Some(s.clone()),
        None => None,
    }
}

impl LegacyIpsetEntry {
    /// The legacy entries of one ipset entry.
    pub fn from_ipset_entry(entry: &IpsetEntry) -> (r: Vec<LegacyIpsetEntry>)
        ensures
            r@ == legacy_entries_spec(*entry),
    {
        let mut entries: Vec<LegacyIpsetEntry> = Vec::new();
        match &entry.address {
            IpsetAddress::Alias(name) => {
                entries.push(
                    LegacyIpsetEntry {
                        nomatch: entry.nomatch,
                        cidr: name.clone(),
                        comment: clone_comment(&entry.comment),
                    },
                );
                assert(entries@ =~= legacy_entries_spec(*entry));
            },
            IpsetAddress::Cidr(cidr) => {
                entries.push(
                    LegacyIpsetEntry {
                        nomatch: entry.nomatch,
                        cidr: cidr.clone(),
                        comment: clone_comment(&entry.comment),
                    },
                );
                assert(entries@ =~= legacy_entries_spec(*entry));
            },
            IpsetAddress::Range(cidrs) => {
                let mut i: usize = 0;
                while i < cidrs.len()
                    invariant
                        i <= cidrs@.len(),
                        entries@.len() == i,
                        forall|j: int|
                            0 <= j < i ==> #[trigger] entries@[j] == (LegacyIpsetEntry {
                                nomatch: entry.nomatch,
                                cidr: cidrs@[j],
                                comment: entry.comment,
                            }),
                    decreases cidrs.len() - i,
                {
                    entries.push(
                        LegacyIpsetEntry {
                            nomatch: entry.nomatch,
                            cidr: cidrs[i].clone(),
                            comment: clone_comment(&entry.comment),
                        },
                    );
                    i = i + 1;
                }
                assert(entries@ =~= legacy_entries_spec(*entry));
            },
        }
        entries
    }
}

/// What adding `s` does to the ipsets by name: its entries replace any of that name.
pub open spec fn add_ipset_spec(m: Map<Seq<char>, Seq<LegacyIpsetEntry>>, s: Ipset) -> Map<
    Seq<char>,
    Seq<LegacyIpsetEntry>,
> {
    m.insert(s.name@, flat_entries_spec(s.entries@))
}

/// What adding `s` does to the comments by ipset name: a comment replaces any earlier one.
pub open spec fn add_comment_spec(m: Map<Seq<char>, Seq<char>>, s: Ipset) -> Map<
    Seq<char>,
    Seq<char>,
> {
    match s.comment {
        Some(c) => m.insert(s.name@, c@),
        None => m,
    }
}

pub open spec fn add_ipsets_spec(m: Map<Seq<char>, Seq<LegacyIpsetEntry>>, ss: Seq<Ipset>) -> Map<
    Seq<char>,
    Seq<LegacyIpsetEntry>,
>
    decreases ss.len(),
{
    if ss.len() == 0 {
        m
    } else {
        add_ipsets_spec(add_ipset_spec(m, ss[0]), ss.drop_first())
    }
}

pub open spec fn add_comments_spec(m: Map<Seq<char>, Seq<char>>, ss: Seq<Ipset>) -> Map<
    Seq<char>,
    Seq<char>,
>
    decreases ss.len(),
{
    if ss.len() == 0 {
        m
    } else {
        add_comments_spec(add_comment_spec(m, ss[0]), ss.drop_first())
    }
}

/// The SDN ipsets and their comments, by ipset name.
pub struct SdnFirewallConfig {
    pub ipset: Vec<(String, Vec<LegacyIpsetEntry>)>,
    pub ipset_comments: Vec<(String, String)>,
}

impl SdnFirewallConfig {
    /// No ipset name occurs twice.
    pub open spec fn wf(&self) -> bool {
        unique_keys(self.ipset@) && unique_keys(self.ipset_comments@)
    }

    /// The entries of each ipset.
    pub open spec fn ipset_view(&self) -> Map<Seq<char>, Seq<LegacyIpsetEntry>> {
        keyed_map(self.ipset@).map_values(|v: Vec<LegacyIpsetEntry>| v@)
    }

    /// The comment of each ipset that has one.
    pub open spec fn comment_view(&self) -> Map<Seq<char>, Seq<char>> {
        keyed_map(self.ipset_comments@).map_values(|c: String| c@)
    }

    /// A configuration without ipsets.
    pub fn new() -> (r: SdnFirewallConfig)
        ensures
            r.wf(),
            r.ipset_view() == Map::<Seq<char>, Seq<LegacyIpsetEntry>>::empty(),
            r.comment_view() == Map::<Seq<char>, Seq<char>>::empty(),
    {
        let r = SdnFirewallConfig { ipset: Vec::new(), ipset_comments: Vec::new() };
        assert(r.ipset_view() =~= Map::<Seq<char>, Seq<LegacyIpsetEntry>>::empty());
        assert(r.comment_view() =~= Map::<Seq<char>, Seq<char>>::empty());
        r
    }

    fn add_ipset(&mut self, ipset: Ipset)
        requires
            old(self).wf(),
        ensures
            final(self).wf(),
            final(self).ipset_view() == add_ipset_spec(old(self).ipset_view(), ipset),
            final(self).comment_view() == add_comment_spec(old(self).comment_view(), ipset),
    {
        let ghost spec_ipset = ipset;
        let mut entries: Vec<LegacyIpsetEntry> = Vec::new();
        let mut i: usize = 0;
        while i < ipset.entries.len()
            invariant
                i <= ipset.entries@.len(),
                entries@ == flat_entries_spec(ipset.entries@.subrange(0, i as int)),
            decreases ipset.entries.len() - i,
        {
            let ghost p = ipset.entries@.subrange(0, i + 1);
            assert(p.drop_last() =~= ipset.entries@.subrange(0, i as int));
            let mut more = LegacyIpsetEntry::from_ipset_entry(&ipset.entries[i]);
            entries.append(&mut more);
            i = i + 1;
        }
        assert(ipset.entries@.subrange(0, i as int) =~= ipset.entries@);
        let ghost before_sets = keyed_map(self.ipset@);
        let ghost before_comments = keyed_map(self.ipset_comments@);
        let ghost ev = entries@;
        if let Some(comment) = &ipset.comment {
            keyed_insert(&mut self.ipset_comments, ipset.name.clone(), comment.clone());
        }
        keyed_insert(&mut self.ipset, ipset.name, entries);
        proof {
            assert(self.ipset_view() =~= add_ipset_spec(
                before_sets.map_values(|v: Vec<LegacyIpsetEntry>| v@),
                spec_ipset,
            ));
            assert(self.comment_view() =~= add_comment_spec(
                before_comments.map_values(|c: String| c@),
                spec_ipset,
            ));
        }
    }

    /// Adds ipsets in order; a later ipset of a name replaces an earlier one, and a comment
    /// replaces an earlier comment of that name.
    pub fn extend_ipsets(&mut self, ipsets: Vec<Ipset>)
        requires
            old(self).wf(),
        ensures
            final(self).wf(),
            final(self).ipset_view() == add_ipsets_spec(old(self).ipset_view(), ipsets@),
            final(self).comment_view() == add_comments_spec(old(self).comment_view(), ipsets@),
    {
        let ghost all = ipsets@;
        let mut ipsets = ipsets;
        let ghost n = all.len();
        assert(all.subrange(0, n as int) =~= all);
        while ipsets.len() > 0
            invariant
                self.wf(),
                ipsets@.len() <= n,
                n == all.len(),
                ipsets@ == all.subrange(n - ipsets@.len(), n as int),
                add_ipsets_spec(old(self).ipset_view(), all) == add_ipsets_spec(
                    self.ipset_view(),
                    ipsets@,
                ),
                add_comments_spec(old(self).comment_view(), all) == add_comments_spec(
                    self.comment_view(),
                    ipsets@,
                ),
            decreases ipsets.len(),
        {
            let ghost rest = ipsets@;
            let ipset = ipsets.remove(0);
            assert(rest.drop_first() =~= ipsets@);
            self.add_ipset(ipset);
        }
    }
}

} // verus!
