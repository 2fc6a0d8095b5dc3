//! Which origins may call the API from a browser: any, or those of a list.

use crate::header::{check_header_value, is_header_value};
use crate::text::{
    chars_of, is_white_space, lemma_trim, same_text, split_on, text_of, trim, trim_bounds,
};
use vstd::prelude::*;

verus! {

/// The rule for requests from other origins.
#[derive(Debug, Clone, PartialEq, Eq)]
pub enum AllowOrigin {
    /// Any origin may call.
    Any,
    /// The origins of this list may call, and no other.
    Whitelist(Vec<String>),
}

/// The rule as a value of structured configuration: a text, or a list of
/// texts.
#[derive(Debug, Clone, PartialEq, Eq)]
pub enum OriginShape {
    Text(String),
    List(Vec<String>),
}

/// A text that names no origin at all.
#[derive(Debug, Clone, Copy, PartialEq, Eq, Structural)]
pub struct InvalidWhitelist;

/// What a rule says: nothing, or the hosts in their order.
pub enum OriginRule {
    Any,
    Whitelist(Seq<Seq<char>>),
}

/// What a value of structured configuration holds.
pub enum ShapeView {
    Text(Seq<char>),
    List(Seq<Seq<char>>),
}

/// The texts of a list, as sequences of characters.
pub open spec fn texts(list: Seq<String>) -> Seq<Seq<char>> {
    list.map_values(|text: String| text@)
}

impl View for AllowOrigin {
    type V = OriginRule;

    open spec fn view(&self) -> OriginRule {
        match self {
            AllowOrigin::Any => OriginRule::Any,
            AllowOrigin::Whitelist(hosts) => OriginRule::Whitelist(texts(hosts@)),
        }
    }
}

impl View for OriginShape {
    type V = ShapeView;

    open spec fn view(&self) -> ShapeView {
        match self {
            OriginShape::Text(text) => ShapeView::Text(text@),
            OriginShape::List(list) => ShapeView::List(texts(list@)),
        }
    }
}

/// The hosts among the pieces of a list: each piece without the white space
/// around it, and without the pieces that are empty then.
pub open spec fn kept_hosts(pieces: Seq<Seq<char>>) -> Seq<Seq<char>> {
    pieces.map_values(|piece: Seq<char>| trim(piece)).filter(|host: Seq<char>| host.len() > 0)
}

/// The hosts that a text lists between its commas.
pub open spec fn hosts_in(s: Seq<char>) -> Seq<Seq<char>> {
    kept_hosts(split_on(s, ','))
}

/// The rule that a text stands for: `*` is any origin; every other text is
/// the list of the hosts in it, and no rule where it has none.
pub open spec fn parse_rule(s: Seq<char>) -> Option<OriginRule> {
    if s == seq!['*'] {
        Some(OriginRule::Any)
    } else if hosts_in(s).len() == 0 {
        None
    } else {
        Some(OriginRule::Whitelist(hosts_in(s)))
    }
}

/// The value that a rule is written as: `*` for any origin, the host itself
/// for a list of one, the list otherwise.
pub open spec fn shape_of(rule: OriginRule) -> ShapeView {
    match rule {
        OriginRule::Any => ShapeView::Text(seq!['*']),
        OriginRule::Whitelist(hosts) => if hosts.len() == 1 {
            ShapeView::Text(hosts[0])
        } else {
            ShapeView::List(hosts)
        },
    }
}

/// The rule that a value is read as: the text `*` is any origin, another
/// text a list of one host, and a list is itself.
pub open spec fn rule_of(shape: ShapeView) -> OriginRule {
    match shape {
        ShapeView::Text(text) => if text == seq!['*'] {
            OriginRule::Any
        } else {
            OriginRule::Whitelist(seq![text])
        },
        ShapeView::List(list) => OriginRule::Whitelist(list),
    }
}

/// What a host of a list is: a text that is not empty, neither begins nor
/// ends with white space, and holds no comma.
pub open spec fn is_host(host: Seq<char>) -> bool {
    &&& host.len() > 0
    &&& !is_white_space(host[0])
    &&& !is_white_space(host.last())
    &&& !host.contains(',')
}

/// No piece of a text holds the separator.
pub proof fn lemma_pieces_hold_no_separator(s: Seq<char>, sep: char)
    ensures
        split_on(s, sep).len() >= 1,
        forall|i: int|
            0 <= i < split_on(s, sep).len() ==> !(#[trigger] split_on(s, sep)[i]).contains(sep),
    decreases s.len(),
{
    if s.len() > 0 {
        let before = split_on(s.drop_last(), sep);
        let now = split_on(s, sep);
        lemma_pieces_hold_no_separator(s.drop_last(), sep);
        assert forall|i: int| 0 <= i < now.len() implies !(#[trigger] now[i]).contains(sep) by {
            if i < now.len() - 1 {
                assert(now[i] == before[i]);
            } else if s.last() == sep {
                assert(now[i] == Seq::<char>::empty());
            } else {
                let piece = before.last().push(s.last());
                assert(now[i] == piece);
                if piece.contains(sep) {
                    let k = choose|k: int| 0 <= k < piece.len() && piece[k] == sep;
                    assert(before.last()[k] == sep);
                }
            }
        }
    }
}

/// The hosts among pieces without a comma are hosts.
pub proof fn lemma_kept_hosts_are_hosts(pieces: Seq<Seq<char>>)
    requires
        forall|i: int| 0 <= i < pieces.len() ==> !(#[trigger] pieces[i]).contains(','),
    ensures
        forall|i: int| 0 <= i < kept_hosts(pieces).len() ==> is_host(#[trigger] kept_hosts(pieces)[i]),
    decreases pieces.len(),
{
    if pieces.len() == 0 {
        lemma_kept_hosts_empty();
    } else {
        let rest = pieces.drop_last();
        let piece = pieces.last();
        assert(pieces == rest.push(piece));
        lemma_kept_hosts_push(rest, piece);
        lemma_kept_hosts_are_hosts(rest);
        lemma_trim(piece);
        assert forall|i: int| 0 <= i < kept_hosts(pieces).len() implies is_host(
            #[trigger] kept_hosts(pieces)[i],
        ) by {
            if i < kept_hosts(rest).len() {
                assert(kept_hosts(pieces)[i] == kept_hosts(rest)[i]);
            } else {
                assert(kept_hosts(pieces)[i] == trim(piece));
            }
        }
    }
}

/// Every host that a text lists is a host: it is not empty, has no white
/// space at its ends, and holds no comma.
pub proof fn lemma_hosts_in_are_hosts(s: Seq<char>)
    ensures
        forall|i: int| 0 <= i < hosts_in(s).len() ==> is_host(#[trigger] hosts_in(s)[i]),
{
    lemma_pieces_hold_no_separator(s, ',');
    lemma_kept_hosts_are_hosts(split_on(s, ','));
}

/// One more piece gives one more host, or none where it is blank.
pub proof fn lemma_kept_hosts_push(pieces: Seq<Seq<char>>, piece: Seq<char>)
    ensures
        kept_hosts(pieces.push(piece)) == if trim(piece).len() > 0 {
            kept_hosts(pieces).push(trim(piece))
        } else {
            kept_hosts(pieces)
        },
{
    let f = |piece: Seq<char>| trim(piece);
    let p = |host: Seq<char>| host.len() > 0;
    assert(pieces.push(piece).map_values(f) == pieces.map_values(f).push(trim(piece)));
    pieces.map_values(f).lemma_filter_push(trim(piece), p);
}

/// A rule that is written and read again is the same rule, unless it is the
/// list of the one host `*`, which is written as any origin is.
pub proof fn lemma_shape_round_trip(rule: OriginRule)
    requires
        rule != OriginRule::Whitelist(seq![seq!['*']]),
    ensures
        rule_of(shape_of(rule)) == rule,
{
    match rule {
        OriginRule::Any => {},
        OriginRule::Whitelist(hosts) => {
            if hosts.len() == 1 {
                assert(hosts == seq![hosts[0]]);
            }
        },
    }
}

/// A value is read as a rule whichever of the two forms it has: a text that
/// is not `*` reads as the list that holds it alone.
pub proof fn lemma_text_reads_as_list(text: Seq<char>)
    requires
        text != seq!['*'],
    ensures
        rule_of(ShapeView::Text(text)) == rule_of(ShapeView::List(seq![text])),
{
}

impl InvalidWhitelist {
    /// The failure in words.
    pub fn to_string(&self) -> (text: String)
        ensures
            text@ == "Invalid AllowOrigin::Whitelist value"@,
    {
        String::from_str("Invalid AllowOrigin::Whitelist value")
    }
}

impl AllowOrigin {
    /// Reads a rule from a text: `*`, or hosts with commas between them.
    pub fn from_str(s: &str) -> (parsed: Result<AllowOrigin, InvalidWhitelist>)
        ensures
            match parse_rule(s@) {
                Some(rule) => parsed matches Ok(origin) && origin@ == rule,
                None => parsed is Err,
            },
    {
        let chars = chars_of(s);
        let n = chars.len();
        if n == 1 && chars[0] == '*' {
            assert(s@ == seq!['*']);
            return Ok(AllowOrigin::Any);
        }
        let mut hosts: Vec<String> = Vec::new();
        let mut start: usize = 0;
        let mut i: usize = 0;
        proof {
            assert(chars@.take(0) == Seq::<char>::empty());
            assert(chars@.subrange(0, 0) == Seq::<char>::empty());
            assert(split_on(chars@.take(0), ',').drop_last() == Seq::<Seq<char>>::empty());
            assert(texts(hosts@) == Seq::<Seq<char>>::empty());
            lemma_kept_hosts_empty();
        }
        while i < n
            invariant
                n == chars@.len(),
                start <= i <= n,
                split_on(chars@.take(i as int), ',').len() >= 1,
                split_on(chars@.take(i as int), ',').last() == chars@.subrange(
                    start as int,
                    i as int,
                ),
                texts(hosts@) == kept_hosts(split_on(chars@.take(i as int), ',').drop_last()),
            decreases n - i,
        {
            let ghost before = split_on(chars@.take(i as int), ',');
            let ghost now = split_on(chars@.take(i + 1), ',');
            proof {
                assert(chars@.take(i + 1).drop_last() == chars@.take(i as int));
                assert(chars@.take(i + 1).last() == chars@[i as int]);
            }
            if chars[i] == ',' {
                proof {
                    assert(now == before.push(Seq::<char>::empty()));
                    assert(now.drop_last() == before);
                    assert(before == before.drop_last().push(before.last()));
                    lemma_kept_hosts_push(before.drop_last(), before.last());
                    assert(chars@.subrange(i + 1, i + 1) == Seq::<char>::empty());
                }
                push_host(&mut hosts, &chars, start, i);
                start = i + 1;
            } else {
                proof {
                    assert(now == before.drop_last().push(before.last().push(chars@[i as int])));
                    assert(now.drop_last() == before.drop_last());
                    assert(chars@.subrange(start as int, i + 1) == chars@.subrange(
                        start as int,
                        i as int,
                    ).push(chars@[i as int]));
                }
            }
            i = i + 1;
        }
        proof {
            let pieces = split_on(chars@.take(n as int), ',');
            assert(chars@.take(n as int) == chars@);
            assert(pieces == pieces.drop_last().push(pieces.last()));
            lemma_kept_hosts_push(pieces.drop_last(), pieces.last());
        }
        push_host(&mut hosts, &chars, start, n);
        assert(texts(hosts@) == hosts_in(s@));
        assert(s@ != seq!['*']) by {
            if s@ == seq!['*'] {
                assert(s@.len() == 1 && s@[0] == '*');
            }
        }
        if hosts.len() == 0 {
            Err(InvalidWhitelist)
        } else {
            Ok(AllowOrigin::Whitelist(hosts))
        }
    }

    /// The value that the rule is written as in structured configuration.
    pub fn serialize(&self) -> (shape: OriginShape)
        ensures
            shape@ == shape_of(self@),
    {
        match self {
            AllowOrigin::Any => {
                let mut text = String::new();
                text.push('*');
                assert(text@ == seq!['*']);
                OriginShape::Text(text)
            },
            AllowOrigin::Whitelist(hosts) => {
                if hosts.len() == 1 {
                    OriginShape::Text(hosts[0].clone())
                } else {
                    OriginShape::List(copy_texts(hosts))
                }
            },
        }
    }

    /// The rule that a value of structured configuration stands for.
    pub fn deserialize(shape: OriginShape) -> (origin: AllowOrigin)
        ensures
            origin@ == rule_of(shape@),
    {
        match shape {
            OriginShape::Text(text) => {
                let chars = chars_of(text.as_str());
                if chars.len() == 1 && chars[0] == '*' {
                    assert(text@ == seq!['*']);
                    AllowOrigin::Any
                } else {
                    assert(text@ != seq!['*']) by {
                        if text@ == seq!['*'] {
                            assert(text@.len() == 1 && text@[0] == '*');
                        }
                    }
                    let mut hosts: Vec<String> = Vec::new();
                    hosts.push(text);
                    assert(texts(hosts@) == seq![text@]);
                    AllowOrigin::Whitelist(hosts)
                }
            },
            OriginShape::List(list) => AllowOrigin::Whitelist(list),
        }
    }

    /// Whether every host of the rule can be the value of a header.
    pub fn has_header_values(&self) -> (ok: bool)
        ensures
            ok == hosts_are_header_values(self@),
    {
        match self {
            AllowOrigin::Any => true,
            AllowOrigin::Whitelist(hosts) => {
                let mut i: usize = 0;
                while i < hosts.len()
                    invariant
                        i <= hosts@.len(),
                        self@ == OriginRule::Whitelist(texts(hosts@)),
                        forall|j: int| 0 <= j < i ==> is_header_value(#[trigger] texts(hosts@)[j]),
                    decreases hosts@.len() - i,
                {
                    if !check_header_value(hosts[i].as_str()) {
                        assert(texts(hosts@)[i as int] == hosts@[i as int]@);
                        assert(self@->Whitelist_0 == texts(hosts@));
                        assert(!is_header_value(self@->Whitelist_0[i as int]));
                        return false;
                    }
                    i = i + 1;
                }
                true
            },
        }
    }

    /// Whether requests from `origin` are let in.
    pub fn allows(&self, origin: &str) -> (allowed: bool)
        ensures
            allowed == match self@ {
                OriginRule::Any => true,
                OriginRule::Whitelist(hosts) => hosts.contains(origin@),
            },
    {
        match self {
            AllowOrigin::Any => true,
            AllowOrigin::Whitelist(hosts) => {
                let mut i: usize = 0;
                while i < hosts.len()
                    invariant
                        i <= hosts@.len(),
                        self@ == OriginRule::Whitelist(texts(hosts@)),
                        forall|j: int| 0 <= j < i ==> texts(hosts@)[j] != origin@,
                    decreases hosts@.len() - i,
                {
                    if same_text(hosts[i].as_str(), origin) {
                        assert(texts(hosts@)[i as int] == origin@);
                        return true;
                    }
                    i = i + 1;
                }
                false
            },
        }
    }
}

/// `actix_cors::Cors`: the rule as the transport holds and applies it.
#[verifier::external_type_specification]
#[verifier::external_body]
pub struct ExCors(actix_cors::Cors);

/// The origins that a rule of the transport has on its list.
pub uninterp spec fn cors_origins(cors: actix_cors::Cors) -> Set<Seq<char>>;

/// Whether a rule of the transport lets in every origin, whatever its list
/// holds.
pub uninterp spec fn cors_any_origin(cors: actix_cors::Cors) -> bool;

/// Whether a rule of the transport still takes changes: none of those made
/// so far was refused.
pub uninterp spec fn cors_is_open(cors: actix_cors::Cors) -> bool;

/// Whether the transport takes a text as an origin for its list: it does
/// where the text reads as an address, and is not `*`.
pub uninterp spec fn origin_taken(origin: Seq<char>) -> bool;

/// Calls `Cors::default`: a rule that takes changes, with an empty list, that
/// lets in no origin.
#[verifier::external_body]
pub(crate) fn new_cors() -> (cors: actix_cors::Cors)
    ensures
        cors_origins(cors) == Set::<Seq<char>>::empty(),
        !cors_any_origin(cors),
        cors_is_open(cors),
{
    actix_cors::Cors::default()
}

/// Calls `Cors::allow_any_origin`: a rule that takes changes lets in every
/// origin afterwards; one that does not stays as it is.
#[verifier::external_body]
pub(crate) fn allow_any_origin(cors: actix_cors::Cors) -> (opened: actix_cors::Cors)
    ensures
        cors_is_open(opened) == cors_is_open(cors),
        cors_is_open(cors) ==> cors_any_origin(opened),
        !cors_is_open(cors) ==> cors_any_origin(opened) == cors_any_origin(cors) && cors_origins(
            opened,
        ) == cors_origins(cors),
{
    cors.allow_any_origin()
}

/// Whether every host of a rule is a text that can be the value of a
/// header. The transport takes no other host: it stops on one.
pub open spec fn hosts_are_header_values(rule: OriginRule) -> bool {
    match rule {
        OriginRule::Any => true,
        OriginRule::Whitelist(hosts) => forall|i: int|
            0 <= i < hosts.len() ==> is_header_value(#[trigger] hosts[i]),
    }
}

/// Calls `Cors::allowed_origin`, on a text that can be the value of a
/// header. A rule that takes changes takes the origin
/// exactly where the text is one that the transport takes. Then the origin
/// joins the list, which starts anew if every origin was let in before, and
/// the rule lets in the origins of its list and no other. Where the origin
/// is refused, or the rule takes no changes, the rule lets in what it did
/// before and takes no changes from then on.
#[verifier::external_body]
pub(crate) fn allow_origin(cors: actix_cors::Cors, origin: &str) -> (added: actix_cors::Cors)
    requires
        is_header_value(origin@),
    ensures
        cors_is_open(added) == (cors_is_open(cors) && origin_taken(origin@)),
        cors_is_open(added) ==> !cors_any_origin(added) && cors_origins(added) == (
        if cors_any_origin(cors) {
            Set::<Seq<char>>::empty().insert(origin@)
        } else {
            cors_origins(cors).insert(origin@)
        }),
        !cors_is_open(added) ==> cors_any_origin(added) == cors_any_origin(cors) && cors_origins(
            added,
        ) == cors_origins(cors),
{
    cors.allowed_origin(origin)
}

/// Whether a rule of the transport stands for a list of hosts of which the
/// transport took the first `taken`: these it took, the next one, if there
/// is one, it refused; it lets in the hosts it took and no other origin; and
/// it still takes changes exactly where it took all hosts of the list.
pub open spec fn cors_lists(cors: actix_cors::Cors, hosts: Seq<Seq<char>>, taken: int) -> bool {
    &&& 0 <= taken <= hosts.len()
    &&& forall|i: int| 0 <= i < taken ==> origin_taken(#[trigger] hosts[i])
    &&& taken < hosts.len() ==> !origin_taken(hosts[taken])
    &&& !cors_any_origin(cors)
    &&& cors_origins(cors) == hosts.take(taken).to_set()
    &&& cors_is_open(cors) == (taken == hosts.len())
}

/// Whether a rule of the transport follows a rule for origins. For any
/// origin it lets in every origin. For a list it lets in the hosts of the
/// list up to the first one that the transport refuses, and no other; where
/// the transport refuses none, these are all hosts of the list.
///
/// A rule of the transport that refused a host takes no changes any more,
/// and it does not serve either: the transport fails when it builds its
/// middleware from such a rule.
pub open spec fn cors_follows(cors: actix_cors::Cors, rule: OriginRule) -> bool {
    match rule {
        OriginRule::Any => cors_any_origin(cors) && cors_is_open(cors),
        OriginRule::Whitelist(hosts) => exists|taken: int| cors_lists(cors, hosts, taken),
    }
}

/// The rule for the transport that follows a rule for origins, whose hosts
/// can be values of a header: `AllowOrigin::has_header_values` tells. A list
/// with a host that the transport refuses gives a rule that the transport
/// cannot build its middleware from.
pub fn cors_from(origin: &AllowOrigin) -> (cors: actix_cors::Cors)
    requires
        hosts_are_header_values(origin@),
    ensures
        cors_follows(cors, origin@),
{
    match origin {
        AllowOrigin::Any => allow_any_origin(new_cors()),
        AllowOrigin::Whitelist(hosts) => {
            let mut cors = new_cors();
            let mut i: usize = 0;
            let ghost mut taken: int = 0;
            assert(texts(hosts@).take(0).to_set() == Set::<Seq<char>>::empty());
            assert(origin@->Whitelist_0 == texts(hosts@));
            while i < hosts.len()
                invariant
                    i <= hosts@.len(),
                    0 <= taken <= i,
                    forall|k: int|
                        0 <= k < hosts@.len() ==> is_header_value(#[trigger] texts(hosts@)[k]),
                    forall|k: int| 0 <= k < taken ==> origin_taken(#[trigger] texts(hosts@)[k]),
                    taken < i ==> !origin_taken(texts(hosts@)[taken]),
                    !cors_any_origin(cors),
                    cors_origins(cors) == texts(hosts@).take(taken).to_set(),
                    cors_is_open(cors) == (taken == i),
                decreases hosts@.len() - i,
            {
                proof {
                    let seen = texts(hosts@).take(i as int);
                    let now = texts(hosts@).take(i + 1);
                    assert(now == seen.push(hosts@[i as int]@));
                    assert(now.to_set() == seen.to_set().insert(hosts@[i as int]@)) by {
                        assert forall|host: Seq<char>| now.to_set().contains(host)
                            <==> seen.to_set().insert(hosts@[i as int]@).contains(host) by {
                            if now.contains(host) {
                                let k = choose|k: int| 0 <= k < now.len() && now[k] == host;
                                if k < seen.len() {
                                    assert(seen[k] == host);
                                }
                            }
                            if seen.contains(host) {
                                let k = choose|k: int| 0 <= k < seen.len() && seen[k] == host;
                                assert(now[k] == host);
                            }
                            if host == hosts@[i as int]@ {
                                assert(now[i as int] == host);
                            }
                        }
                    }
                    assert(texts(hosts@)[i as int] == hosts@[i as int]@);
                }
                cors = allow_origin(cors, hosts[i].as_str());
                proof {
                    if cors_is_open(cors) {
                        taken = i + 1;
                    }
                }
                i = i + 1;
            }
            assert(cors_lists(cors, texts(hosts@), taken));
            assert(origin@->Whitelist_0 == texts(hosts@));
            cors
        },
    }
}

/// No pieces, no hosts.
proof fn lemma_kept_hosts_empty()
    ensures
        kept_hosts(Seq::<Seq<char>>::empty()) == Seq::<Seq<char>>::empty(),
{
    reveal(Seq::filter);
    let f = |piece: Seq<char>| trim(piece);
    assert(Seq::<Seq<char>>::empty().map_values(f) == Seq::<Seq<char>>::empty());
}

/// Adds the host in `chars[from..to]`, unless the piece is blank.
fn push_host(hosts: &mut Vec<String>, chars: &Vec<char>, from: usize, to: usize)
    requires
        from <= to <= chars@.len(),
    ensures
        texts(final(hosts)@) == if trim(chars@.subrange(from as int, to as int)).len() > 0 {
            texts(old(hosts)@).push(trim(chars@.subrange(from as int, to as int)))
        } else {
            texts(old(hosts)@)
        },
{
    let (a, b) = trim_bounds(chars, from, to);
    if a < b {
        let host = text_of(chars, a, b);
        let ghost before = texts(hosts@);
        hosts.push(host);
        assert(texts(hosts@) == before.push(host@));
    }
}

/// A list of the same texts.
fn copy_texts(list: &Vec<String>) -> (copy: Vec<String>)
    ensures
        texts(copy@) == texts(list@),
{
    let mut copy: Vec<String> = Vec::new();
    let mut i: usize = 0;
    while i < list.len()
        invariant
            i <= list@.len(),
            texts(copy@) == texts(list@).take(i as int),
        decreases list@.len() - i,
    {
        let ghost before = texts(copy@);
        copy.push(list[i].clone());
        assert(texts(copy@) == before.push(list@[i as int]@));
        i = i + 1;
    }
    assert(texts(list@).take(i as int) == texts(list@));
    copy
}

} // verus!
