use vstd::prelude::*;

verus! {

/// One downloadable resource: the source URL and the destination file name.
/// Two links are the same resource exactly when both parts agree.
#[derive(Debug)]
pub struct Link {
    pub url: String,
    pub name: String,
}

impl Clone for Link {
    fn clone(&self) -> (r: Link)
        ensures
            r == *self,
    {
        Link { url: self.url.clone(), name: self.name.clone() }
    }
}

/// The mathematical value of a `Link`: both strings as character sequences.
pub struct LinkView {
    pub url: Seq<char>,
    pub name: Seq<char>,
}

impl View for Link {
    type V = LinkView;

    open spec fn view(&self) -> LinkView {
        LinkView { url: self.url@, name: self.name@ }
    }
}

impl PartialEq for Link {
    fn eq(&self, other: &Link) -> (r: bool) {
        self.url == other.url && self.name == other.name
    }
}

impl vstd::std_specs::cmp::PartialEqSpecImpl for Link {
    open spec fn obeys_eq_spec() -> bool {
        true
    }

    open spec fn eq_spec(&self, other: &Link) -> bool {
        self@ == other@
    }
}

/// The views of a sequence of links.
pub open spec fn link_views(s: Seq<Link>) -> Seq<LinkView> {
    s.map_values(|l: Link| l@)
}

/// The values held by the present entries of a sequence of optional strings,
/// in order.
pub open spec fn present_values(s: Seq<Option<Seq<char>>>) -> Seq<Seq<char>>
    decreases s.len(),
{
    if s.len() == 0 {
        Seq::empty()
    } else if s.last() is Some {
        present_values(s.drop_last()).push(s.last()->0)
    } else {
        present_values(s.drop_last())
    }
}

/// The links made by pairing the two selector result sequences position by
/// position, stopping at the shorter one.
pub open spec fn paired_views(urls: Seq<Seq<char>>, names: Seq<Seq<char>>) -> Seq<LinkView> {
    Seq::new(
        if urls.len() <= names.len() {
            urls.len()
        } else {
            names.len()
        },
        |i: int| LinkView { url: urls[i], name: names[i] },
    )
}

/// The view of one optional string.
pub open spec fn opt_view(o: Option<String>) -> Option<Seq<char>> {
    match o {
        Some(s) => Some(s@),
        None => None,
    }
}

/// The views of a sequence of optional strings.
pub open spec fn opt_views(s: Seq<Option<String>>) -> Seq<Option<Seq<char>>> {
    s.map_values(|o: Option<String>| opt_view(o))
}

/// The views of a sequence of strings.
pub open spec fn str_views(s: Seq<String>) -> Seq<Seq<char>> {
    s.map_values(|t: String| t@)
}

/// Keep the strings that are present, dropping the absent entries.
pub fn filter_present(items: Vec<Option<String>>) -> (r: Vec<String>)
    ensures
        str_views(r@) == present_values(opt_views(items@)),
{
    let n = items.len();
    let mut r: Vec<String> = Vec::new();
    let mut i: usize = 0;
    while i < n
        invariant
            i <= n,
            n == items@.len(),
            str_views(r@) == present_values(opt_views(items@.take(i as int))),
        decreases n - i,
    {
        proof {
            assert(opt_views(items@.take(i as int + 1)).drop_last() =~= opt_views(
                items@.take(i as int),
            ));
            assert(opt_views(items@.take(i as int + 1)).last() == opt_view(items@[i as int]));
        }
        match &items[i] {
            Some(s) => {
                let t = s.clone();
                r.push(t);
                proof {
                    assert(str_views(r@) =~= present_values(opt_views(items@.take(i as int + 1))));
                }
            },
            None => {
                proof {
                    assert(str_views(r@) =~= present_values(opt_views(items@.take(i as int + 1))));
                }
            },
        }
        i = i + 1;
    }
    proof {
        assert(items@.take(n as int) =~= items@);
    }
    r
}

/// Pair the extracted URLs with the extracted names position by position,
/// stopping at the shorter sequence.
pub fn pair_links(urls: Vec<String>, names: Vec<String>) -> (r: Vec<Link>)
    ensures
        link_views(r@) == paired_views(str_views(urls@), str_views(names@)),
{
    let n = if urls.len() <= names.len() {
        urls.len()
    } else {
        names.len()
    };
    let mut r: Vec<Link> = Vec::new();
    let mut i: usize = 0;
    while i < n
        invariant
            i <= n,
            n == if urls@.len() <= names@.len() {
                urls@.len()
            } else {
                names@.len()
            },
            r@.len() == i as int,
            forall|j: int|
                0 <= j < i as int ==> #[trigger] r@[j]@ == (LinkView {
                    url: urls@[j]@,
                    name: names@[j]@,
                }),
        decreases n - i,
    {
        let url = urls[i].clone();
        let name = names[i].clone();
        r.push(Link { url, name });
        i = i + 1;
    }
    proof {
        assert(link_views(r@) =~= paired_views(str_views(urls@), str_views(names@)));
    }
    r
}

/// Whether a link with the same URL and name already stands in `v`.
pub fn contains_link(v: &Vec<Link>, l: &Link) -> (b: bool)
    ensures
        b == link_views(v@).contains(l@),
{
    let n = v.len();
    let mut i: usize = 0;
    while i < n
        invariant
            i <= n,
            n == v@.len(),
            forall|j: int| 0 <= j < i as int ==> #[trigger] v@[j]@ != l@,
        decreases n - i,
    {
        if &v[i] == l {
            proof {
                assert(link_views(v@)[i as int] == l@);
            }
            return true;
        }
        i = i + 1;
    }
    proof {
        assert forall|j: int| 0 <= j < link_views(v@).len() implies link_views(v@)[j] != l@ by {
            assert(v@[j]@ != l@);
        }
    }
    false
}

/// Drop every repeated `(url, name)` pair, keeping first occurrences: the
/// result holds each link of the input exactly once.
pub fn dedup_links(links: Vec<Link>) -> (r: Vec<Link>)
    ensures
        forall|i: int, j: int|
            0 <= i < j < r@.len() ==> link_views(r@)[i] != link_views(r@)[j],
        forall|l: LinkView| link_views(r@).contains(l) == link_views(links@).contains(l),
{
    let n = links.len();
    let mut r: Vec<Link> = Vec::new();
    let mut i: usize = 0;
    while i < n
        invariant
            i <= n,
            n == links@.len(),
            forall|a: int, b: int|
                0 <= a < b < r@.len() ==> link_views(r@)[a] != link_views(r@)[b],
            forall|l: LinkView|
                link_views(r@).contains(l) == link_views(links@.take(i as int)).contains(l),
        decreases n - i,
    {
        proof {
            assert(link_views(links@.take(i as int + 1)).drop_last() =~= link_views(
                links@.take(i as int),
            ));
            assert(link_views(links@.take(i as int + 1)).last() == links@[i as int]@);
        }
        let present = contains_link(&r, &links[i]);
        if !present {
            let ghost old_r = r@;
            r.push(links[i].clone());
            proof {
                assert(link_views(r@).drop_last() =~= link_views(old_r));
                assert(link_views(r@).last() == links@[i as int]@);
                assert forall|l: LinkView|
                    link_views(r@).contains(l) == link_views(links@.take(i as int + 1)).contains(
                        l,
                    ) by {
                    lemma_contains_after_push(link_views(old_r), links@[i as int]@, l);
                    lemma_contains_after_push(
                        link_views(links@.take(i as int)),
                        links@[i as int]@,
                        l,
                    );
                    assert(link_views(links@.take(i as int + 1)) =~= link_views(
                        links@.take(i as int),
                    ).push(links@[i as int]@));
                    assert(link_views(r@) =~= link_views(old_r).push(links@[i as int]@));
                }
                assert forall|a: int, b: int|
                    0 <= a < b < r@.len() implies link_views(r@)[a] != link_views(r@)[b] by {
                    assert(link_views(r@) =~= link_views(old_r).push(links@[i as int]@));
                    if b == r@.len() - 1 {
                        assert(link_views(r@)[a] == link_views(old_r)[a]);
                        assert(link_views(old_r).contains(link_views(old_r)[a]));
                    } else {
                        assert(link_views(r@)[a] == link_views(old_r)[a]);
                        assert(link_views(r@)[b] == link_views(old_r)[b]);
                    }
                }
            }
        } else {
            proof {
                assert forall|l: LinkView|
                    link_views(r@).contains(l) == link_views(links@.take(i as int + 1)).contains(
                        l,
                    ) by {
                    lemma_contains_after_push(
                        link_views(links@.take(i as int)),
                        links@[i as int]@,
                        l,
                    );
                    assert(link_views(links@.take(i as int + 1)) =~= link_views(
                        links@.take(i as int),
                    ).push(links@[i as int]@));
                }
            }
        }
        i = i + 1;
    }
    proof {
        assert(links@.take(n as int) =~= links@);
    }
    r
}

/// Membership in a sequence extended by one element: either the new element
/// itself, or membership in the shorter sequence.
proof fn lemma_contains_after_push(s: Seq<LinkView>, x: LinkView, l: LinkView)
    ensures
        s.push(x).contains(l) == (s.contains(l) || l == x),
{
    if s.contains(l) {
        let k = choose|k: int| 0 <= k < s.len() && s[k] == l;
        assert(s.push(x)[k] == l);
    }
    if l == x {
        assert(s.push(x)[s.len() as int] == l);
    }
    if s.push(x).contains(l) {
        let k = choose|k: int| 0 <= k < s.push(x).len() && s.push(x)[k] == l;
        if k < s.len() {
            assert(s[k] == l);
        }
    }
}

} // verus!
