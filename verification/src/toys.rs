//! Toys of a shop, read from comma-separated lines, and prices in hryvnias
//! and kopiykas.
use vstd::prelude::*;
use crate::order::{before, is_stable_order, lemma_single_key_lt, placed, stable_order};
use crate::text::{
    decimal, int_error_message, lowered, parse_spec, parse_usize,
    render_usize, same_text, split_by, split_spec, to_lowercase, lemma_split_join, IntErrorKind,
};

verus! {

/// What kind of toy a line describes, with the number that goes with it.
#[derive(Debug, Clone, Copy, PartialEq, Eq, Structural)]
pub enum ToySpecific {
    Doll { height: usize },
    Ball { weight: usize },
    Bricks { amount: usize },
    Constructor { amount: usize },
}

/// Why a line is not a toy.
#[derive(Debug)]
pub enum ToyIntoError {
    NotEnoughtInputFields,
    ErrorParsing { error: String, input: String },
}

/// A toy: its name, what kind it is, its price in kopiykas and the age it is for.
#[derive(Debug)]
pub struct Toy {
    pub name: String,
    pub specific: ToySpecific,
    pub price: usize,
    pub age: String,
}

/// The kinds of toy a line may name.
#[derive(Debug, Clone, Copy, PartialEq, Eq, Structural)]
pub enum ToyKind {
    Doll,
    Constructor,
    Ball,
    Bricks,
}

/// The kind a lowercased name names.
pub open spec fn kind_named(t: Seq<char>) -> Option<ToyKind> {
    if t == "doll"@ {
        Some(ToyKind::Doll)
    } else if t == "constructor"@ {
        Some(ToyKind::Constructor)
    } else if t == "ball"@ {
        Some(ToyKind::Ball)
    } else if t == "bricks"@ {
        Some(ToyKind::Bricks)
    } else {
        None
    }
}

/// The specific part of a toy of kind `k` with number `v`.
pub open spec fn specific_of(k: ToyKind, v: int) -> ToySpecific {
    match k {
        ToyKind::Doll => ToySpecific::Doll { height: v as usize },
        ToyKind::Constructor => ToySpecific::Constructor { amount: v as usize },
        ToyKind::Ball => ToySpecific::Ball { weight: v as usize },
        ToyKind::Bricks => ToySpecific::Bricks { amount: v as usize },
    }
}

/// What reading a line gives.
pub enum LineVerdict {
    /// Fewer than four comma-separated fields.
    Missing,
    /// The first field names no kind of toy.
    UnknownKind,
    /// A number field is not a `usize`: why, and the field.
    BadNumber(IntErrorKind, Seq<char>),
    /// A toy: name, kind, the number of its kind, price and age.
    Parsed(Seq<char>, ToyKind, int, int, Seq<char>),
}

/// How a line `name,price,age,number` is read: the fields are split at
/// commas and fields past the fourth are ignored; the name, in lowercase,
/// gives the kind; then the kind's number is read, then the price.
pub open spec fn line_verdict(line: Seq<char>) -> LineVerdict {
    let f = split_spec(line, ',');
    if f.len() < 4 {
        LineVerdict::Missing
    } else {
        match kind_named(lowered(f[0])) {
            None => LineVerdict::UnknownKind,
            Some(k) => match parse_spec(f[3], usize::MAX as int) {
                Err(e) => LineVerdict::BadNumber(e, f[3]),
                Ok(v) => match parse_spec(f[1], usize::MAX as int) {
                    Err(e) => LineVerdict::BadNumber(e, f[1]),
                    Ok(p) => LineVerdict::Parsed(f[0], k, v, p, f[2]),
                },
            },
        }
    }
}

/// Fields after the fourth are ignored: a line with at least four fields
/// reads the same with a comma and anything after it added.
pub proof fn lemma_extra_fields_ignored(line: Seq<char>, extra: Seq<char>)
    requires
        split_spec(line, ',').len() >= 4,
    ensures
        line_verdict(line.push(',') + extra) == line_verdict(line),
{
    lemma_split_join(line, ',', extra);
    let f = split_spec(line, ',');
    let g = split_spec(line.push(',') + extra, ',');
    assert(g[0] == f[0] && g[1] == f[1] && g[2] == f[2] && g[3] == f[3]);
}

/// The outcome `r` of reading a line agrees with verdict `v` (`None` is an
/// unknown kind, for which the line is not a toy at all).
pub open spec fn outcome_agrees(r: Option<Result<Toy, ToyIntoError>>, v: LineVerdict) -> bool {
    match v {
        LineVerdict::Missing => r matches Some(Err(ToyIntoError::NotEnoughtInputFields)),
        LineVerdict::UnknownKind => r is None,
        LineVerdict::BadNumber(e, input) => r matches Some(
            Err(ToyIntoError::ErrorParsing { error: m, input: i }),
        ) && m@ == int_error_message(e) && i@ == input,
        LineVerdict::Parsed(name, k, n, p, age) => r matches Some(Ok(t)) && t.name@ == name
            && t.specific == specific_of(k, n) && t.price == p && t.age@ == age,
    }
}

/// The kind a lowercased name names, if any.
pub fn kind_from_lowercase(t: &str) -> (r: Option<ToyKind>)
    ensures
        r == kind_named(t@),
{
    if same_text(t, "doll") {
        Some(ToyKind::Doll)
    } else if same_text(t, "constructor") {
        Some(ToyKind::Constructor)
    } else if same_text(t, "ball") {
        Some(ToyKind::Ball)
    } else if same_text(t, "bricks") {
        Some(ToyKind::Bricks)
    } else {
        None
    }
}

fn number_error(e: IntErrorKind, input: &str) -> (r: ToyIntoError)
    ensures
        r matches ToyIntoError::ErrorParsing { error: m, input: i } && m@ == int_error_message(e)
            && i@ == input@,
{
    ToyIntoError::ErrorParsing { error: e.message(), input: String::from_str(input) }
}

impl Toy {
    /// Reads a line `name,price,age,number`; `None` when the name is no
    /// kind of toy.
    pub fn parse_line(value: &str) -> (r: Option<Result<Toy, ToyIntoError>>)
        ensures
            outcome_agrees(r, line_verdict(value@)),
    {
        let fields = split_by(value, ',');
        if fields.len() >= 4 {
            let lower = to_lowercase(fields[0]);
            assert(lower@ == lowered(split_spec(value@, ',')[0]));
            if kind_from_lowercase(lower.as_str()).is_none() {
                return None;
            }
        }
        Some(Toy::try_from(String::from_str(value)))
    }

    /// Reads a line `name,price,age,number` whose name is a kind of toy:
    /// the fields are split at commas, the name in lowercase gives the
    /// kind, then the kind's number is read, then the price.
    pub fn try_from(value: String) -> (r: Result<Toy, ToyIntoError>)
        requires
            !(line_verdict(value@) is UnknownKind),
        ensures
            outcome_agrees(Some(r), line_verdict(value@)),
    {
        let fields = split_by(value.as_str(), ',');
        if fields.len() < 4 {
            return Err(ToyIntoError::NotEnoughtInputFields);
        }
        let toy_name = fields[0];
        let toy_price = fields[1];
        let toy_age = fields[2];
        let toy_specific = fields[3];
        let lower = to_lowercase(toy_name);
        assert(lower@ == lowered(toy_name@));
        let kind = match kind_from_lowercase(lower.as_str()) {
            Some(k) => k,
            None => {
                assert(false);
                return Err(ToyIntoError::NotEnoughtInputFields);
            },
        };
        let number: usize = match parse_usize(toy_specific) {
            Ok(v) => v,
            Err(e) => {
                return Err(number_error(e, toy_specific));
            },
        };
        let specific = match kind {
            ToyKind::Doll => ToySpecific::Doll { height: number },
            ToyKind::Constructor => ToySpecific::Constructor { amount: number },
            ToyKind::Ball => ToySpecific::Ball { weight: number },
            ToyKind::Bricks => ToySpecific::Bricks { amount: number },
        };
        let price: usize = match parse_usize(toy_price) {
            Ok(v) => v,
            Err(e) => {
                return Err(number_error(e, toy_price));
            },
        };
        Ok(
            Toy {
                name: String::from_str(toy_name),
                specific,
                price,
                age: String::from_str(toy_age),
            },
        )
    }

    /// The line the toy is listed with: `name (age) - price`.
    pub fn listing_line(&self) -> (r: String)
        ensures
            r@ == self.name@ + " ("@ + self.age@ + ") - "@ + price_text(price_of(self.price)),
    {
        let mut s = String::from_str(self.name.as_str());
        s.append(" (");
        s.append(self.age.as_str());
        s.append(") - ");
        let p = Price::from(self.price);
        let t = p.render();
        s.append(t.as_str());
        s
    }
}

/// Why a text is not a list of toys: the first line that is not one.
#[derive(Debug)]
pub enum ToyListError {
    /// The line at this index (from 0) is not a toy.
    Invalid(usize, ToyIntoError),
    /// The line at this index names no kind of toy.
    UnknownKind(usize),
}

/// The text holds one toy per line (lines split at `\n`, as `str::split`
/// does), and `toys` are those toys in order.
pub open spec fn all_parsed(lines: Seq<Seq<char>>, toys: Seq<Toy>) -> bool {
    &&& toys.len() == lines.len()
    &&& forall|i: int|
        0 <= i < lines.len() ==> outcome_agrees(Some(Ok(#[trigger] toys[i])), line_verdict(lines[i]))
}

/// Reads every line of `content` as a toy; stops at the first line that is
/// not one and reports it.
pub fn parse_toys(content: &str) -> (r: Result<Vec<Toy>, ToyListError>)
    ensures
        r matches Ok(toys) ==> all_parsed(split_spec(content@, '\n'), toys@),
        r matches Err(ToyListError::Invalid(i, e)) ==> {
            &&& i < split_spec(content@, '\n').len()
            &&& outcome_agrees(Some(Err(e)), line_verdict(split_spec(content@, '\n')[i as int]))
            &&& forall|j: int|
                0 <= j < i ==> line_verdict(split_spec(content@, '\n')[j]) is Parsed
        },
        r matches Err(ToyListError::UnknownKind(i)) ==> {
            &&& i < split_spec(content@, '\n').len()
            &&& line_verdict(split_spec(content@, '\n')[i as int]) is UnknownKind
            &&& forall|j: int|
                0 <= j < i ==> line_verdict(split_spec(content@, '\n')[j]) is Parsed
        },
{
    let lines = split_by(content, '\n');
    let ghost ls = split_spec(content@, '\n');
    let mut toys: Vec<Toy> = Vec::new();
    let mut i: usize = 0;
    while i < lines.len()
        invariant
            ls == split_spec(content@, '\n'),
            lines@.len() == ls.len(),
            forall|k: int| 0 <= k < lines@.len() ==> (#[trigger] lines@[k])@ == ls[k],
            i <= lines@.len(),
            toys@.len() == i,
            forall|j: int|
                0 <= j < i ==> outcome_agrees(Some(Ok(#[trigger] toys@[j])), line_verdict(ls[j])),
        decreases lines@.len() - i,
    {
        assert(lines@[i as int]@ == ls[i as int]);
        match Toy::parse_line(lines[i]) {
            Some(Ok(t)) => {
                toys.push(t);
            },
            Some(Err(e)) => {
                assert forall|j: int| 0 <= j < i implies line_verdict(ls[j]) is Parsed by {
                    assert(outcome_agrees(Some(Ok(toys@[j])), line_verdict(ls[j])));
                }
                return Err(ToyListError::Invalid(i, e));
            },
            None => {
                assert forall|j: int| 0 <= j < i implies line_verdict(ls[j]) is Parsed by {
                    assert(outcome_agrees(Some(Ok(toys@[j])), line_verdict(ls[j])));
                }
                return Err(ToyListError::UnknownKind(i));
            },
        }
        i = i + 1;
    }
    Ok(toys)
}

/// The key a toy is sorted by: its price.
pub open spec fn price_keys(toys: Seq<Toy>) -> Seq<Seq<u64>> {
    toys.map_values(|t: Toy| seq![t.price as u64])
}

/// Whether the toy at position `k` is named exactly `constructor`.
pub open spec fn is_constructor_at(toys: Seq<Toy>, k: usize) -> bool {
    toys[k as int].name@ == "constructor"@
}

/// The positions of the toys named `constructor`, ordered by price, toys of
/// one price in the order they were read: the toys sorted stably by price,
/// then filtered.
pub fn constructor_order(toys: &Vec<Toy>) -> (r: Vec<usize>)
    ensures
        exists|order: Seq<usize>|
            {
                &&& is_stable_order(price_keys(toys@), order)
                &&& r@ == order.filter(|k: usize| is_constructor_at(toys@, k))
            },
{
    let mut keys: Vec<Vec<u64>> = Vec::new();
    let mut i: usize = 0;
    while i < toys.len()
        invariant
            i <= toys@.len(),
            keys@.map_values(|k: Vec<u64>| k@) =~= price_keys(toys@.take(i as int)),
        decreases toys@.len() - i,
    {
        let mut key: Vec<u64> = Vec::new();
        key.push(toys[i].price as u64);
        assert(key@ =~= seq![toys@[i as int].price as u64]);
        let ghost old_keys = keys@;
        keys.push(key);
        assert(keys@.map_values(|k: Vec<u64>| k@) =~= old_keys.map_values(|k: Vec<u64>| k@).push(
            key@,
        ));
        assert(toys@.take(i + 1) =~= toys@.take(i as int).push(toys@[i as int]));
        i = i + 1;
    }
    assert(toys@.take(toys@.len() as int) =~= toys@);
    let order = stable_order(&keys);
    let ghost pred = |k: usize| is_constructor_at(toys@, k);
    let mut r: Vec<usize> = Vec::new();
    let mut a: usize = 0;
    proof {
        reveal_strlit("constructor");
    }
    while a < order.len()
        invariant
            a <= order@.len(),
            order@.len() == toys@.len(),
            forall|b: int| 0 <= b < order@.len() ==> (#[trigger] order@[b]) < toys@.len(),
            pred == (|k: usize| is_constructor_at(toys@, k)),
            r@ =~= order@.take(a as int).filter(pred),
        decreases order@.len() - a,
    {
        reveal_with_fuel(Seq::<_>::filter, 1);
        let k: usize = order[a];
        assert(order@.take(a + 1).drop_last() =~= order@.take(a as int));
        if same_text(toys[k].name.as_str(), "constructor") {
            r.push(k);
        }
        a = a + 1;
    }
    assert(order@.take(order@.len() as int) =~= order@);
    r
}

/// Filtering a list keeps every relation that held between each item and
/// the items after it, and keeps only items of the list.
proof fn lemma_filter_pairwise<A>(s: Seq<A>, pred: spec_fn(A) -> bool, rel: spec_fn(A, A) -> bool)
    requires
        forall|a: int, b: int| 0 <= a < b < s.len() ==> #[trigger] rel(s[a], s[b]),
    ensures
        forall|i: int, j: int|
            0 <= i < j < s.filter(pred).len() ==> #[trigger] rel(
                s.filter(pred)[i],
                s.filter(pred)[j],
            ),
        forall|i: int|
            0 <= i < s.filter(pred).len() ==> exists|a: int|
                0 <= a < s.len() && s[a] == #[trigger] s.filter(pred)[i],
    decreases s.len(),
{
    reveal_with_fuel(Seq::<_>::filter, 1);
    if s.len() > 0 {
        let d = s.drop_last();
        assert forall|a: int, b: int| 0 <= a < b < d.len() implies #[trigger] rel(d[a], d[b]) by {
            assert(rel(s[a], s[b]));
        }
        lemma_filter_pairwise(d, pred, rel);
        let f0 = d.filter(pred);
        let f = s.filter(pred);
        if pred(s.last()) {
            assert(f == f0.push(s.last()));
            assert forall|i: int, j: int| 0 <= i < j < f.len() implies #[trigger] rel(f[i], f[j]) by {
                if j < f0.len() {
                    assert(f[i] == f0[i] && f[j] == f0[j]);
                    assert(rel(f0[i], f0[j]));
                } else {
                    assert(f[i] == f0[i]);
                    let a = choose|a: int| 0 <= a < d.len() && d[a] == #[trigger] f0[i];
                    assert(rel(s[a], s[s.len() - 1]));
                }
            }
            assert forall|i: int| 0 <= i < f.len() implies exists|a: int|
                0 <= a < s.len() && s[a] == #[trigger] f[i] by {
                if i < f0.len() {
                    assert(f[i] == f0[i]);
                    let a = choose|a: int| 0 <= a < d.len() && d[a] == #[trigger] f0[i];
                    assert(s[a] == f[i]);
                } else {
                    assert(s[s.len() - 1] == f[i]);
                }
            }
        } else {
            assert(f == f0);
            assert forall|i: int| 0 <= i < f.len() implies exists|a: int|
                0 <= a < s.len() && s[a] == #[trigger] f[i] by {
                let a = choose|a: int| 0 <= a < d.len() && d[a] == #[trigger] f0[i];
                assert(s[a] == f[i]);
            }
        }
    }
}

/// The constructors are listed cheapest first by their full price in
/// kopiykas, constructors of one price in the order they were read; every
/// position listed holds a constructor, and every constructor is listed.
pub proof fn lemma_constructors_by_price(toys: Seq<Toy>, r: Seq<usize>)
    requires
        exists|order: Seq<usize>|
            {
                &&& is_stable_order(price_keys(toys), order)
                &&& r == order.filter(|k: usize| is_constructor_at(toys, k))
            },
    ensures
        forall|i: int|
            0 <= i < r.len() ==> #[trigger] r[i] < toys.len() && toys[r[i] as int].name@
                == "constructor"@,
        forall|i: int, j: int|
            0 <= i < j < r.len() ==> {
                let (x, y) = (#[trigger] r[i] as int, #[trigger] r[j] as int);
                toys[x].price < toys[y].price || (toys[x].price == toys[y].price && x < y)
            },
        forall|k: int|
            0 <= k < toys.len() && toys[k].name@ == "constructor"@ ==> r.contains(k as usize),
{
    let order = choose|order: Seq<usize>|
        {
            &&& is_stable_order(price_keys(toys), order)
            &&& r == order.filter(|k: usize| is_constructor_at(toys, k))
        };
    let keys = price_keys(toys);
    let pred = |k: usize| is_constructor_at(toys, k);
    let rel = |x: usize, y: usize|
        {
            &&& x < toys.len()
            &&& y < toys.len()
            &&& (toys[x as int].price < toys[y as int].price || (toys[x as int].price
                == toys[y as int].price && x < y))
        };
    assert forall|a: int, b: int| 0 <= a < b < order.len() implies #[trigger] rel(
        order[a],
        order[b],
    ) by {
        let (x, y) = (order[a] as int, order[b] as int);
        assert(before(keys, x, y));
        assert(keys[x] == seq![toys[x].price as u64]);
        assert(keys[y] == seq![toys[y].price as u64]);
        lemma_single_key_lt(toys[x].price as u64, toys[y].price as u64);
    }
    lemma_filter_pairwise(order, pred, rel);
    order.filter_lemma(pred);
    assert forall|i: int| 0 <= i < r.len() implies #[trigger] r[i] < toys.len() && toys[r[i] as int].name@
        == "constructor"@ by {
        assert(pred(r[i]));
        let a = choose|a: int| 0 <= a < order.len() && order[a] == #[trigger] r[i];
        assert(order[a] < keys.len());
    }
    assert forall|i: int, j: int| 0 <= i < j < r.len() implies {
        let (x, y) = (#[trigger] r[i] as int, #[trigger] r[j] as int);
        toys[x].price < toys[y].price || (toys[x].price == toys[y].price && x < y)
    } by {
        assert(rel(r[i], r[j]));
    }
    assert forall|k: int| 0 <= k < toys.len() && toys[k].name@ == "constructor"@ implies r.contains(
        k as usize,
    ) by {
        assert(placed(order, k));
        let a = choose|a: int| 0 <= a < order.len() && order[a] == k;
        assert(pred(order[a]));
    }
}

/// A price split into hryvnias and kopiykas.
#[derive(Debug, Clone, Copy, PartialEq, Eq, Structural)]
pub struct Price {
    pub hrn: usize,
    pub cop: usize,
}

/// The price of `value` kopiykas: `value % 100` kopiykas and the rest in
/// hryvnias.
pub open spec fn price_of(value: usize) -> Price {
    Price { hrn: value / 100, cop: value % 100 }
}

impl From<usize> for Price {
    /// The price of `value` kopiykas: `value % 100` kopiykas and the rest in
    /// hryvnias.
    fn from(value: usize) -> (r: Price) {
        let cop: usize = value % 100;
        let hrn: usize = (value - cop) / 100;
        Price { hrn, cop }
    }
}

impl vstd::std_specs::convert::FromSpecImpl<usize> for Price {
    open spec fn obeys_from_spec() -> bool {
        true
    }

    open spec fn from_spec(v: usize) -> Price {
        price_of(v)
    }
}

/// A price splits into hryvnias and kopiykas without loss: its kopiykas are
/// fewer than 100 and together they make the value.
pub proof fn lemma_price_parts(value: usize)
    ensures
        price_of(value).cop < 100,
        price_of(value).hrn * 100 + price_of(value).cop == value,
{
}

impl Price {
    /// The price as shown: `<hrn>грн <cop>коп`.
    pub fn render(&self) -> (r: String)
        ensures
            r@ == price_text(*self),
    {
        let mut s = render_usize(self.hrn);
        s.append("грн ");
        let c = render_usize(self.cop);
        s.append(c.as_str());
        s.append("коп");
        s
    }
}

/// The text a price is shown as.
pub open spec fn price_text(p: Price) -> Seq<char> {
    decimal(p.hrn as nat) + "грн "@ + decimal(p.cop as nat) + "коп"@
}

} // verus!
