use vstd::prelude::*;
use vstd::string::StringExecFns;
use crate::subdomain_set::{strings_set, SubdomainSet};

verus! {

/// One page of the BinaryEdge subdomain listing as the core reads it: the
/// provider-reported pagination counters and the subdomain events on the page.
pub struct BinaryEdgeResponse {
    pub page: i32,
    pub pagesize: i32,
    pub total: i32,
    pub events: Vec<String>,
}

impl BinaryEdgeResponse {
    /// The distinct subdomains on this page.
    pub fn subdomains(&self) -> (r: SubdomainSet)
        ensures
            r.wf(),
            r.set_view() =~= strings_set(self.events@),
    {
        let mut r = SubdomainSet::new();
        r.insert_strings(&self.events);
        proof {
            assert(r.set_view() =~= strings_set(self.events@));
        }
        r
    }
}

/// The pagination stop condition the provider's counters define: page `p` is
/// the last page once `p * pagesize` reaches the reported total.
pub open spec fn page_done(p: int, pagesize: int, total: int) -> bool {
    p * pagesize >= total
}

fn page_done_exec(p: i32, pagesize: i32, total: i32) -> (r: bool)
    ensures
        r == page_done(p as int, pagesize as int, total as int),
{
    proof {
        assert((p as int) * (pagesize as int) <= 0x8000_0000 * 0x8000_0000 && (p as int) * (
        pagesize as int) >= -(0x8000_0000 * 0x8000_0000)) by (nonlinear_arith)
            requires
                -0x8000_0000 <= p as int <= 0x7fff_ffff,
                -0x8000_0000 <= pagesize as int <= 0x7fff_ffff,
        ;
    }
    let prod: i64 = (p as i64) * (pagesize as i64);
    prod >= (total as i64)
}

/// The largest page number a counter-terminated walk can reach.
pub open spec fn spec_last_page(total: int) -> int {
    if total > 1 {
        total
    } else {
        1
    }
}

/// With a positive page size, any page at or past the bound satisfies the
/// stop condition, so the walk terminates.
proof fn lemma_done_at_bound(p: int, pagesize: int, total: int)
    requires
        pagesize >= 1,
        p >= spec_last_page(total),
    ensures
        page_done(p, pagesize, total),
{
    assert(p * pagesize >= p) by (nonlinear_arith)
        requires
            p >= 1,
            pagesize >= 1,
    ;
}

/// Decides, from the counters the first page reported, which further pages to
/// fetch: page numbers `page + 1`, `page + 2`, ... up to and including the
/// first one whose predecessor satisfies the stop condition. A reported total
/// the first page already covers (a total of zero in particular) plans no
/// further page. Returns None when the counters are unusable — a page size or
/// a first page number below one that does not already satisfy the stop
/// condition — so that a misreporting provider yields a pagination failure
/// instead of an unbounded walk or nonsense page numbers.
pub fn plan_pages(page: i32, pagesize: i32, total: i32) -> (r: Option<Vec<i32>>)
    ensures
        r matches Some(v) ==> {
            &&& forall|j: int|
                0 <= j < v@.len() ==> v@[j] as int == page as int + 1 + j && !page_done(
                    page as int + j,
                    pagesize as int,
                    total as int,
                )
            &&& page_done(page as int + v@.len(), pagesize as int, total as int)
        },
        page >= 1 && pagesize >= 1 ==> r is Some,
        r is None <==> ((pagesize <= 0 || page <= 0) && !page_done(
            page as int,
            pagesize as int,
            total as int,
        )),
{
    if page_done_exec(page, pagesize, total) {
        let v: Vec<i32> = Vec::new();
        return Some(v);
    }
    if pagesize < 1 || page < 1 {
        return None;
    }
    proof {
        if page as int >= spec_last_page(total as int) {
            lemma_done_at_bound(page as int, pagesize as int, total as int);
        }
    }
    let mut p = page;
    let mut out: Vec<i32> = Vec::new();
    while !page_done_exec(p, pagesize, total)
        invariant
            pagesize >= 1,
            page >= 1,
            page <= p,
            p as int <= spec_last_page(total as int),
            out@.len() == p as int - page as int,
            forall|j: int|
                0 <= j < out@.len() ==> (#[trigger] out@[j]) as int == page as int + 1 + j
                    && !page_done(page as int + j, pagesize as int, total as int),
        decreases spec_last_page(total as int) - p as int,
    {
        proof {
            if p as int >= spec_last_page(total as int) {
                lemma_done_at_bound(p as int, pagesize as int, total as int);
            }
        }
        p = p + 1;
        out.push(p);
    }
    Some(out)
}

/// The union of the subdomain events over a sequence of pages.
pub open spec fn pages_union(pages: Seq<BinaryEdgeResponse>) -> Set<Seq<char>>
    decreases pages.len(),
{
    if pages.len() == 0 {
        Set::empty()
    } else {
        pages_union(pages.drop_last()).union(strings_set(pages.last().events@))
    }
}

/// Unions the subdomains of the first page and of every later page into one
/// deduplicated set: the adapter's single terminal result.
pub fn collect_pages(first: &BinaryEdgeResponse, rest: &Vec<BinaryEdgeResponse>) -> (r:
    SubdomainSet)
    ensures
        r.wf(),
        r.set_view() =~= strings_set(first.events@).union(pages_union(rest@)),
{
    let mut r = first.subdomains();
    let n = rest.len();
    let mut i: usize = 0;
    while i < n
        invariant
            n == rest@.len(),
            i <= n,
            r.wf(),
            r.set_view() =~= strings_set(first.events@).union(pages_union(rest@.take(i as int))),
        decreases n - i,
    {
        r.insert_strings(&rest[i].events);
        proof {
            assert(rest@.take(i + 1).drop_last() =~= rest@.take(i as int));
            assert(rest@.take(i + 1).last() == rest@[i as int]);
            assert(r.set_view() =~= strings_set(first.events@).union(
                pages_union(rest@.take(i + 1)),
            ));
        }
        i += 1;
    }
    proof {
        assert(rest@.take(n as int) =~= rest@);
    }
    r
}

pub open spec fn spec_digit_char(d: int) -> char {
    if d == 0 {
        '0'
    } else if d == 1 {
        '1'
    } else if d == 2 {
        '2'
    } else if d == 3 {
        '3'
    } else if d == 4 {
        '4'
    } else if d == 5 {
        '5'
    } else if d == 6 {
        '6'
    } else if d == 7 {
        '7'
    } else if d == 8 {
        '8'
    } else {
        '9'
    }
}

/// The decimal digits of a nonnegative number, most significant first.
pub open spec fn spec_decimal(n: nat) -> Seq<char>
    decreases n,
{
    if n < 10 {
        seq![spec_digit_char(n as int)]
    } else {
        spec_decimal(n / 10) + seq![spec_digit_char((n % 10) as int)]
    }
}

/// The decimal rendering of a signed number.
pub open spec fn spec_i32_decimal(p: int) -> Seq<char> {
    if p < 0 {
        seq!['-'] + spec_decimal((-p) as nat)
    } else {
        spec_decimal(p as nat)
    }
}

/// The BinaryEdge query URL for a host: the fixed endpoint, the host, and the
/// page number when one is asked for.
pub open spec fn spec_url(host: Seq<char>, page: Option<int>) -> Seq<char> {
    match page {
        Some(p) => "https://api.binaryedge.io/v2/query/domains/subdomain/"@ + host + "?page="@
            + spec_i32_decimal(p),
        None => "https://api.binaryedge.io/v2/query/domains/subdomain/"@ + host,
    }
}

fn digit_str(d: u32) -> (r: &'static str)
    requires
        d < 10,
    ensures
        r@ == seq![spec_digit_char(d as int)],
{
    proof {
        reveal_strlit("0");
        reveal_strlit("1");
        reveal_strlit("2");
        reveal_strlit("3");
        reveal_strlit("4");
        reveal_strlit("5");
        reveal_strlit("6");
        reveal_strlit("7");
        reveal_strlit("8");
        reveal_strlit("9");
    }
    let r = match d {
        0 => "0",
        1 => "1",
        2 => "2",
        3 => "3",
        4 => "4",
        5 => "5",
        6 => "6",
        7 => "7",
        8 => "8",
        _ => "9",
    };
    proof {
        assert(r@ =~= seq![spec_digit_char(d as int)]);
    }
    r
}

fn append_decimal(s: &mut String, n: u32)
    ensures
        final(s)@ == old(s)@ + spec_decimal(n as nat),
    decreases n,
{
    if n >= 10 {
        append_decimal(s, n / 10);
        let d = digit_str(n % 10);
        s.append(d);
        proof {
            assert(s@ =~= old(s)@ + spec_decimal(n as nat));
        }
    } else {
        let d = digit_str(n);
        s.append(d);
        proof {
            assert(s@ =~= old(s)@ + spec_decimal(n as nat));
        }
    }
}

fn append_i32(s: &mut String, p: i32)
    ensures
        final(s)@ == old(s)@ + spec_i32_decimal(p as int),
{
    if p < 0 {
        s.append("-");
        let m = (-(p as i64)) as u32;
        proof {
            assert(m as int == -(p as int));
        }
        append_decimal(s, m);
        proof {
            reveal_strlit("-");
            assert("-"@ =~= seq!['-']);
            assert(s@ =~= old(s)@ + spec_i32_decimal(p as int));
        }
    } else {
        append_decimal(s, p as u32);
    }
}

/// The query URL for one host, with the page number appended when a later
/// page is being fetched.
pub fn build_url(host: &str, page: Option<i32>) -> (r: String)
    ensures
        page matches Some(p) ==> r@ == spec_url(host@, Some(p as int)),
        page is None ==> r@ == spec_url(host@, None::<int>),
{
    let mut url = String::new();
    url.append("https://api.binaryedge.io/v2/query/domains/subdomain/");
    url.append(host);
    match page {
        Some(p) => {
            url.append("?page=");
            append_i32(&mut url, p);
            proof {
                assert(url@ =~= spec_url(host@, Some(p as int)));
            }
        },
        None => {
            proof {
                assert(url@ =~= spec_url(host@, None::<int>));
            }
        },
    }
    url
}

} // verus!
