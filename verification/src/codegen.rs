//! The source text of the n-ary branch items: for each `n`, an enum
//! `Branch<n>`, the duality of n-ary `Choose` and `Offer`, and the `sel<i>`
//! and `offer` methods on channels at those protocols. Each generator is
//! stated exactly by a spec function over the text it produces.

use vstd::prelude::*;

verus! {

/// The decimal digit of `d < 10`.
pub open spec fn digit(d: nat) -> char {
    if d == 0 { '0' }
    else if d == 1 { '1' }
    else if d == 2 { '2' }
    else if d == 3 { '3' }
    else if d == 4 { '4' }
    else if d == 5 { '5' }
    else if d == 6 { '6' }
    else if d == 7 { '7' }
    else if d == 8 { '8' }
    else { '9' }
}

/// The decimal numeral of `n`, without leading zeros.
pub open spec fn decimal(n: nat) -> Seq<char>
    decreases n,
{
    if n < 10 {
        seq![digit(n)]
    } else {
        decimal(n / 10).push(digit(n % 10))
    }
}

/// The concatenation of `f(1), f(2), ..., f(k - 1)`.
pub open spec fn concat_below(k: nat, f: spec_fn(nat) -> Seq<char>) -> Seq<char>
    decreases k,
{
    if k <= 1 {
        Seq::empty()
    } else {
        concat_below((k - 1) as nat, f) + f((k - 1) as nat)
    }
}

fn digit_str(d: u8) -> (s: &'static str)
    requires
        d < 10,
    ensures
        s@ == seq![digit(d as nat)],
{
    proof {
        reveal_strlit("0");
        reveal_strlit("1");
        reveal_strlit("2");
        reveal_strlit("3");
        reveal_strlit("4");
        reveal_strlit("5");
        reveal_strlit("6");
        reveal_strlit("7");
        reveal_strlit("8");
        reveal_strlit("9");
    }
    if d == 0 { "0" }
    else if d == 1 { "1" }
    else if d == 2 { "2" }
    else if d == 3 { "3" }
    else if d == 4 { "4" }
    else if d == 5 { "5" }
    else if d == 6 { "6" }
    else if d == 7 { "7" }
    else if d == 8 { "8" }
    else { "9" }
}

/// Appends the decimal numeral of `n` to `buf`.
fn push_decimal(buf: &mut String, n: u8)
    ensures
        final(buf)@ == old(buf)@ + decimal(n as nat),
{
    if n < 10 {
        buf.append(digit_str(n));
    } else if n < 100 {
        let hi = n / 10;
        let lo = n % 10;
        assert(decimal(hi as nat) == seq![digit(hi as nat)]);
        assert(decimal(n as nat) == decimal(hi as nat).push(digit(lo as nat)));
        buf.append(digit_str(hi));
        buf.append(digit_str(lo));
        assert(buf@ =~= old(buf)@ + decimal(n as nat));
    } else {
        let top = n / 100;
        let mid = (n / 10) % 10;
        let lo = n % 10;
        let hi = n / 10;
        assert(hi / 10 == top);
        assert(decimal(top as nat) == seq![digit(top as nat)]);
        assert(decimal(hi as nat) == decimal(top as nat).push(digit(mid as nat)));
        assert(decimal(n as nat) == decimal(hi as nat).push(digit(lo as nat)));
        buf.append(digit_str(top));
        buf.append(digit_str(mid));
        buf.append(digit_str(lo));
        assert(buf@ =~= old(buf)@ + decimal(n as nat));
    }
}

/// `before`, then `B<i>`, then `after`.
pub open spec fn item(before: Seq<char>, i: nat, after: Seq<char>) -> Seq<char> {
    before + "B"@ + decimal(i) + after
}

/// The entries of a comma-separated list before its last one.
pub open spec fn list_entry(before: Seq<char>, after: Seq<char>) -> spec_fn(nat) -> Seq<char> {
    |i: nat| item(before, i, after) + ", "@
}

/// `<before>B1<after>, <before>B2<after>, ..., <before>B<n><after>`.
pub open spec fn comma_list(n: nat, before: Seq<char>, after: Seq<char>) -> Seq<char> {
    concat_below(n, list_entry(before, after)) + item(before, n, after)
}

/// A variant `B<i>(B<i>), ` of the enum `Branch<n>`.
pub open spec fn variant_entry() -> spec_fn(nat) -> Seq<char> {
    |i: nat| "B"@ + decimal(i) + "(B"@ + decimal(i) + "), "@
}

/// A method `sel<i>` on a channel at an n-ary `Choose`.
pub open spec fn sel_entry() -> spec_fn(nat) -> Seq<char> {
    |i: nat|
        "#[must_use] "@ + "pub fn sel"@ + decimal(i) + "(self) -> Chan<E, B"@ + decimal(i)
            + "> { "@ + "unsafe { write_chan(&self, "@ + decimal(i) + "); transmute(self) } } "@
}

/// An arm of the `match` in `offer` on a channel at an n-ary `Offer`.
pub open spec fn arm_entry(n: nat) -> spec_fn(nat) -> Seq<char> {
    |i: nat|
        decimal(i) + "u8 => Branch"@ + decimal(n) + "::B"@ + decimal(i) + "(transmute(self)), "@
}

/// The enum `Branch<n>` with variants `B1(B1)` to `B<n>(B<n>)`.
pub open spec fn branch_struct_text(n: nat) -> Seq<char> {
    "pub enum Branch"@ + decimal(n) + "<"@ + comma_list(n, ""@, ""@) + "> { "@
        + concat_below(n + 1, variant_entry()) + " }"@
}

/// The duality rule from an n-ary `Choose` to the n-ary `Offer` of the duals.
pub open spec fn hasdual_choose_text(n: nat) -> Seq<char> {
    "unsafe impl <"@ + comma_list(n, ""@, ": HasDual"@) + "> HasDual for Choose<("@
        + comma_list(n, ""@, ""@) + ")> { type Dual = Offer<("@ + comma_list(n, ""@, "::Dual"@)
        + ")>; }"@
}

/// The duality rule from an n-ary `Offer` to the n-ary `Choose` of the duals.
pub open spec fn hasdual_offer_text(n: nat) -> Seq<char> {
    "unsafe impl <"@ + comma_list(n, ""@, ": HasDual"@) + "> HasDual for Offer<("@
        + comma_list(n, ""@, ""@) + ")> { type Dual = Choose<("@ + comma_list(n, ""@, "::Dual"@)
        + ")>; }"@
}

/// The methods `sel1` to `sel<n>` on a channel at an n-ary `Choose`.
pub open spec fn choose_impl_text(n: nat) -> Seq<char> {
    "impl <E, "@ + comma_list(n, ""@, ""@) + "> Chan<E, Choose<("@ + comma_list(n, ""@, ""@)
        + ")>> { "@ + concat_below(n + 1, sel_entry()) + "}"@
}

/// The method `offer` on a channel at an n-ary `Offer`.
pub open spec fn offer_impl_text(n: nat) -> Seq<char> {
    "impl <E, "@ + comma_list(n, ""@, ""@) + "> Chan<E, Offer<("@ + comma_list(n, ""@, ""@)
        + ")>> { #[must_use] pub fn offer(self) -> Branch"@ + decimal(n) + "<"@ + comma_list(
        n,
        "Chan<E, "@,
        ">"@,
    ) + "> { unsafe { match read_chan(&self) { "@ + concat_below(n + 1, arm_entry(n))
        + "_ => unreachable!() "@ + "} } } }"@
}

/// The five items for arity `n`, in the order they are emitted.
pub open spec fn impl_branch_text(n: nat) -> Seq<Seq<char>> {
    seq![
        branch_struct_text(n),
        hasdual_choose_text(n),
        hasdual_offer_text(n),
        offer_impl_text(n),
        choose_impl_text(n),
    ]
}

/// The items for every arity from 2 to `k - 1`.
pub open spec fn branch_impls_text(k: nat) -> Seq<Seq<char>>
    decreases k,
{
    if k <= 2 {
        Seq::empty()
    } else {
        branch_impls_text((k - 1) as nat) + impl_branch_text((k - 1) as nat)
    }
}

/// The comma-separated list `<before>B1<after>, ..., <before>B<n><after>`;
/// for `n == 0` it is `<before>B0<after>`.
pub fn commalist(n: u8, before: &str, after: &str) -> (r: String)
    ensures
        r@ == comma_list(n as nat, before@, after@),
{
    let ghost f = list_entry(before@, after@);
    let mut buf = String::new();
    let mut i: u8 = 1;
    while i < n
        invariant
            1 <= i,
            i <= n || i == 1,
            f == list_entry(before@, after@),
            buf@ == concat_below(i as nat, f),
        decreases n - i,
    {
        let ghost prev = buf@;
        buf.append(before);
        buf.append("B");
        push_decimal(&mut buf, i);
        buf.append(after);
        buf.append(", ");
        assert(buf@ =~= prev + f(i as nat));
        i = i + 1;
    }
    assert(concat_below(i as nat, f) == concat_below(n as nat, f));
    let ghost prev = buf@;
    buf.append(before);
    buf.append("B");
    push_decimal(&mut buf, n);
    buf.append(after);
    assert(buf@ =~= prev + item(before@, n as nat, after@));
    buf
}

fn push_variant(buf: &mut String, i: u8)
    ensures
        final(buf)@ == old(buf)@ + variant_entry()(i as nat),
{
    buf.append("B");
    push_decimal(buf, i);
    buf.append("(B");
    push_decimal(buf, i);
    buf.append("), ");
    assert(buf@ =~= old(buf)@ + variant_entry()(i as nat));
}

fn push_sel(buf: &mut String, i: u8)
    ensures
        final(buf)@ == old(buf)@ + sel_entry()(i as nat),
{
    buf.append("#[must_use] ");
    buf.append("pub fn sel");
    push_decimal(buf, i);
    buf.append("(self) -> Chan<E, B");
    push_decimal(buf, i);
    buf.append("> { ");
    buf.append("unsafe { write_chan(&self, ");
    push_decimal(buf, i);
    buf.append("); transmute(self) } } ");
    assert(buf@ =~= old(buf)@ + sel_entry()(i as nat));
}

fn push_arm(buf: &mut String, n: u8, i: u8)
    ensures
        final(buf)@ == old(buf)@ + arm_entry(n as nat)(i as nat),
{
    push_decimal(buf, i);
    buf.append("u8 => Branch");
    push_decimal(buf, n);
    buf.append("::B");
    push_decimal(buf, i);
    buf.append("(transmute(self)), ");
    assert(buf@ =~= old(buf)@ + arm_entry(n as nat)(i as nat));
}

/// The enum `Branch<n>` with variants `B1(B1)` to `B<n>(B<n>)`.
pub fn branch_struct(n: u8) -> (r: String)
    requires
        n < 255,
    ensures
        r@ == branch_struct_text(n as nat),
{
    let mut buf = String::new();
    buf.append("pub enum Branch");
    push_decimal(&mut buf, n);
    buf.append("<");
    let list = commalist(n, "", "");
    buf.append(list.as_str());
    buf.append("> { ");
    let ghost head = buf@;
    let mut i: u8 = 1;
    while i <= n
        invariant
            1 <= i <= n + 1,
            n < 255,
            buf@ == head + concat_below(i as nat, variant_entry()),
        decreases n + 1 - i,
    {
        push_variant(&mut buf, i);
        assert(buf@ =~= head + concat_below((i + 1) as nat, variant_entry()));
        i = i + 1;
    }
    buf.append(" }");
    assert(buf@ =~= branch_struct_text(n as nat));
    buf
}

/// The duality rule from an n-ary `Choose` to the n-ary `Offer` of the duals.
pub fn hasdual_choose_impl(n: u8) -> (r: String)
    ensures
        r@ == hasdual_choose_text(n as nat),
{
    let mut buf = String::new();
    buf.append("unsafe impl <");
    let bounded = commalist(n, "", ": HasDual");
    buf.append(bounded.as_str());
    buf.append("> HasDual for Choose<(");
    let plain = commalist(n, "", "");
    buf.append(plain.as_str());
    buf.append(")> { type Dual = Offer<(");
    let duals = commalist(n, "", "::Dual");
    buf.append(duals.as_str());
    buf.append(")>; }");
    assert(buf@ =~= hasdual_choose_text(n as nat));
    buf
}

/// The duality rule from an n-ary `Offer` to the n-ary `Choose` of the duals.
pub fn hasdual_offer_impl(n: u8) -> (r: String)
    ensures
        r@ == hasdual_offer_text(n as nat),
{
    let mut buf = String::new();
    buf.append("unsafe impl <");
    let bounded = commalist(n, "", ": HasDual");
    buf.append(bounded.as_str());
    buf.append("> HasDual for Offer<(");
    let plain = commalist(n, "", "");
    buf.append(plain.as_str());
    buf.append(")> { type Dual = Choose<(");
    let duals = commalist(n, "", "::Dual");
    buf.append(duals.as_str());
    buf.append(")>; }");
    assert(buf@ =~= hasdual_offer_text(n as nat));
    buf
}

/// The methods `sel1` to `sel<n>` on a channel at an n-ary `Choose`.
pub fn choose_impl(n: u8) -> (r: String)
    requires
        n < 255,
    ensures
        r@ == choose_impl_text(n as nat),
{
    let mut buf = String::new();
    buf.append("impl <E, ");
    let list = commalist(n, "", "");
    buf.append(list.as_str());
    buf.append("> Chan<E, Choose<(");
    buf.append(list.as_str());
    buf.append(")>> { ");
    let ghost head = buf@;
    let mut i: u8 = 1;
    while i <= n
        invariant
            1 <= i <= n + 1,
            n < 255,
            buf@ == head + concat_below(i as nat, sel_entry()),
        decreases n + 1 - i,
    {
        push_sel(&mut buf, i);
        assert(buf@ =~= head + concat_below((i + 1) as nat, sel_entry()));
        i = i + 1;
    }
    buf.append("}");
    assert(buf@ =~= choose_impl_text(n as nat));
    buf
}

/// The method `offer` on a channel at an n-ary `Offer`.
pub fn offer_impl(n: u8) -> (r: String)
    requires
        n < 255,
    ensures
        r@ == offer_impl_text(n as nat),
{
    let mut buf = String::new();
    buf.append("impl <E, ");
    let list = commalist(n, "", "");
    buf.append(list.as_str());
    buf.append("> Chan<E, Offer<(");
    buf.append(list.as_str());
    buf.append(")>> { #[must_use] pub fn offer(self) -> Branch");
    push_decimal(&mut buf, n);
    buf.append("<");
    let chans = commalist(n, "Chan<E, ", ">");
    buf.append(chans.as_str());
    buf.append("> { unsafe { match read_chan(&self) { ");
    let ghost head = buf@;
    let mut i: u8 = 1;
    while i <= n
        invariant
            1 <= i <= n + 1,
            n < 255,
            buf@ == head + concat_below(i as nat, arm_entry(n as nat)),
        decreases n + 1 - i,
    {
        push_arm(&mut buf, n, i);
        assert(buf@ =~= head + concat_below((i + 1) as nat, arm_entry(n as nat)));
        i = i + 1;
    }
    buf.append("_ => unreachable!() ");
    buf.append("} } } }");
    assert(buf@ =~= offer_impl_text(n as nat));
    buf
}

/// The texts of the five items for arity `n`: the enum, the two duality
/// rules, `offer` and the `sel` methods.
pub fn impl_branch(n: u8) -> (r: Vec<String>)
    requires
        n < 255,
    ensures
        r@.map_values(|s: String| s@) == impl_branch_text(n as nat),
{
    let mut v: Vec<String> = Vec::new();
    v.push(branch_struct(n));
    v.push(hasdual_choose_impl(n));
    v.push(hasdual_offer_impl(n));
    v.push(offer_impl(n));
    v.push(choose_impl(n));
    assert(v@.map_values(|s: String| s@) =~= impl_branch_text(n as nat));
    v
}

/// The texts of the items for every arity from 2 to `n`, arity by arity.
pub fn branch_impls(n: u8) -> (r: Vec<String>)
    requires
        n < 255,
    ensures
        r@.map_values(|s: String| s@) == branch_impls_text(n as nat + 1),
{
    let mut v: Vec<String> = Vec::new();
    let mut i: u8 = 2;
    while i <= n
        invariant
            2 <= i,
            i <= n + 1 || i == 2,
            n < 255,
            v@.map_values(|s: String| s@) == branch_impls_text(i as nat),
        decreases n + 2 - i,
    {
        let items = impl_branch(i);
        let ghost before = v@;
        let mut k: usize = 0;
        while k < items.len()
            invariant
                k <= items.len(),
                items@.map_values(|s: String| s@) == impl_branch_text(i as nat),
                v@ == before + items@.take(k as int),
            decreases items.len() - k,
        {
            v.push(items[k].clone());
            assert(v@ =~= before + items@.take((k + 1) as int));
            k = k + 1;
        }
        assert(items@.take(items.len() as int) =~= items@);
        assert(v@.map_values(|s: String| s@) =~= before.map_values(|s: String| s@)
            + items@.map_values(|s: String| s@));
        i = i + 1;
    }
    assert(branch_impls_text(i as nat) == branch_impls_text(n as nat + 1));
    v
}

/// Whether `s` is `pre`, then `x`, then `post`.
pub open spec fn splits_at(s: Seq<char>, pre: Seq<char>, x: Seq<char>, post: Seq<char>) -> bool {
    s == pre + x + post
}

/// Whether the text `x` stands somewhere in the text `s`.
pub open spec fn holds_text(s: Seq<char>, x: Seq<char>) -> bool {
    exists|pre: Seq<char>, post: Seq<char>| #[trigger] splits_at(s, pre, x, post)
}

/// Whether `c` is one of the decimal digits.
pub open spec fn is_digit(c: char) -> bool {
    c == '0' || c == '1' || c == '2' || c == '3' || c == '4' || c == '5' || c == '6' || c == '7'
        || c == '8' || c == '9'
}

proof fn lemma_digit_injective(a: nat, b: nat)
    requires
        a < 10,
        b < 10,
        digit(a) == digit(b),
    ensures
        a == b,
{
}

/// A decimal numeral is a non-empty run of digits, of one digit exactly
/// below ten.
proof fn lemma_decimal_digits(n: nat)
    ensures
        decimal(n).len() >= 1,
        n < 10 <==> decimal(n).len() == 1,
        forall|k: int| 0 <= k < decimal(n).len() ==> is_digit(#[trigger] decimal(n)[k]),
    decreases n,
{
    if n >= 10 {
        lemma_decimal_digits(n / 10);
    }
}

/// Different numbers have different decimal numerals.
proof fn lemma_decimal_injective(a: nat, b: nat)
    requires
        decimal(a) == decimal(b),
    ensures
        a == b,
    decreases a,
{
    lemma_decimal_digits(a);
    lemma_decimal_digits(b);
    if a < 10 {
        assert(b < 10);
        assert(decimal(a) == seq![digit(a)]);
        assert(decimal(b) == seq![digit(b)]);
        assert(decimal(a)[0] == digit(a));
        assert(decimal(b)[0] == digit(b));
        lemma_digit_injective(a, b);
    } else {
        assert(b >= 10);
        let da = decimal(a / 10);
        let db = decimal(b / 10);
        assert(decimal(a) == da.push(digit(a % 10)));
        assert(decimal(b) == db.push(digit(b % 10)));
        assert(da =~= decimal(a).drop_last());
        assert(db =~= decimal(b).drop_last());
        lemma_decimal_injective(a / 10, b / 10);
        assert(decimal(a).last() == digit(a % 10));
        assert(decimal(b).last() == digit(b % 10));
        lemma_digit_injective(a % 10, b % 10);
    }
}

/// The concatenation of the entries below `k` begins with the concatenation
/// of the entries below any `m` between 1 and `k`.
proof fn lemma_concat_below_prefix(m: nat, k: nat, f: spec_fn(nat) -> Seq<char>)
    requires
        1 <= m <= k,
    ensures
        concat_below(m, f).is_prefix_of(concat_below(k, f)),
    decreases k,
{
    if k > m {
        lemma_concat_below_prefix(m, (k - 1) as nat, f);
        let c = concat_below((k - 1) as nat, f);
        assert(concat_below(k, f) == c + f((k - 1) as nat));
        assert(concat_below(k, f).subrange(0, concat_below(m, f).len() as int) =~= c.subrange(
            0,
            concat_below(m, f).len() as int,
        ));
    }
}

/// The entry `f(i)` stands in the concatenation of the entries below `k`
/// for every `i` from 1 to `k - 1`.
proof fn lemma_concat_below_holds(i: nat, k: nat, f: spec_fn(nat) -> Seq<char>)
    requires
        1 <= i < k,
    ensures
        holds_text(concat_below(k, f), f(i)),
{
    lemma_concat_below_prefix(i + 1, k, f);
    let c = concat_below(k, f);
    let head = concat_below(i + 1, f);
    let rest = c.subrange(head.len() as int, c.len() as int);
    assert(head == concat_below(i, f) + f(i));
    assert(c =~= head + rest);
    assert(c =~= concat_below(i, f) + f(i) + rest);
    assert(splits_at(c, concat_below(i, f), f(i), rest));
}

/// The tag that `sel<i>` writes is decoded by `offer` as `B<i>`: for every
/// `i` from 1 to `n`, the n-ary `sel` methods include `sel<i>`, which writes
/// the tag `i`; the `match` of the n-ary `offer` has the arms for the tags
/// 1 to `n` in order and then only `_ => unreachable!()`; among them the arm
/// for the tag `i` maps it to `Branch<n>::B<i>`, and no other arm begins
/// with the tag `i`.
pub proof fn lemma_sel_tag_decoded(n: nat, i: nat)
    requires
        1 <= i <= n,
    ensures
        holds_text(choose_impl_text(n), sel_entry()(i)),
        sel_entry()(i) == "#[must_use] "@ + "pub fn sel"@ + decimal(i) + "(self) -> Chan<E, B"@
            + decimal(i) + "> { "@ + "unsafe { write_chan(&self, "@ + decimal(i)
            + "); transmute(self) } } "@,
        exists|pre: Seq<char>|
            #[trigger] splits_at(
                offer_impl_text(n),
                pre,
                "match read_chan(&self) { "@ + concat_below(n + 1, arm_entry(n)),
                "_ => unreachable!() "@ + "} } } }"@,
            ),
        holds_text(offer_impl_text(n), arm_entry(n)(i)),
        arm_entry(n)(i) == decimal(i) + "u8 => Branch"@ + decimal(n) + "::B"@ + decimal(i)
            + "(transmute(self)), "@,
        forall|j: nat|
            1 <= j <= n && (decimal(i) + "u8"@).is_prefix_of(#[trigger] arm_entry(n)(j)) ==> j == i,
{
    let cl = comma_list(n, ""@, ""@);
    let chead = "impl <E, "@ + cl + "> Chan<E, Choose<("@ + cl + ")>> { "@;
    lemma_concat_below_holds(i, n + 1, sel_entry());
    let (p1, q1) = choose|pre: Seq<char>, post: Seq<char>|
        #[trigger] splits_at(concat_below(n + 1, sel_entry()), pre, sel_entry()(i), post);
    assert(choose_impl_text(n) =~= (chead + p1) + sel_entry()(i) + (q1 + "}"@));
    assert(splits_at(choose_impl_text(n), chead + p1, sel_entry()(i), q1 + "}"@));

    let ohead = "impl <E, "@ + cl + "> Chan<E, Offer<("@ + cl
        + ")>> { #[must_use] pub fn offer(self) -> Branch"@ + decimal(n) + "<"@ + comma_list(
        n,
        "Chan<E, "@,
        ">"@,
    ) + "> { unsafe { match read_chan(&self) { "@;
    let otail = "_ => unreachable!() "@ + "} } } }"@;
    lemma_concat_below_holds(i, n + 1, arm_entry(n));
    let (p2, q2) = choose|pre: Seq<char>, post: Seq<char>|
        #[trigger] splits_at(concat_below(n + 1, arm_entry(n)), pre, arm_entry(n)(i), post);
    assert(offer_impl_text(n) =~= (ohead + p2) + arm_entry(n)(i) + (q2 + otail));
    assert(splits_at(offer_impl_text(n), ohead + p2, arm_entry(n)(i), q2 + otail));
    let mhead = "impl <E, "@ + cl + "> Chan<E, Offer<("@ + cl
        + ")>> { #[must_use] pub fn offer(self) -> Branch"@ + decimal(n) + "<"@ + comma_list(
        n,
        "Chan<E, "@,
        ">"@,
    ) + "> { unsafe { "@;
    reveal_strlit("> { unsafe { match read_chan(&self) { ");
    reveal_strlit("> { unsafe { ");
    reveal_strlit("match read_chan(&self) { ");
    assert("> { unsafe { match read_chan(&self) { "@ =~= "> { unsafe { "@ + "match read_chan(&self) { "@);
    assert(offer_impl_text(n) =~= mhead + ("match read_chan(&self) { "@ + concat_below(
        n + 1,
        arm_entry(n),
    )) + otail);
    assert(splits_at(
        offer_impl_text(n),
        mhead,
        "match read_chan(&self) { "@ + concat_below(n + 1, arm_entry(n)),
        otail,
    ));

    assert forall|j: nat|
        1 <= j <= n && (decimal(i) + "u8"@).is_prefix_of(#[trigger] arm_entry(n)(j)) implies j == i by {
        reveal_strlit("u8");
        reveal_strlit("u8 => Branch");
        let t = decimal(i) + "u8"@;
        let a = arm_entry(n)(j);
        let di = decimal(i);
        let dj = decimal(j);
        lemma_decimal_digits(i);
        lemma_decimal_digits(j);
        assert(a == dj + "u8 => Branch"@ + decimal(n) + "::B"@ + dj + "(transmute(self)), "@);
        assert(t[di.len() as int] == 'u');
        if dj.len() > di.len() {
            assert(a[di.len() as int] == dj[di.len() as int]);
            assert(is_digit(dj[di.len() as int]));
            assert(a[di.len() as int] == t[di.len() as int]);
        } else if dj.len() < di.len() {
            assert(a[dj.len() as int] == 'u');
            assert(is_digit(di[dj.len() as int]));
            assert(t[dj.len() as int] == di[dj.len() as int]);
            assert(a[dj.len() as int] == t[dj.len() as int]);
        } else {
            assert forall|k: int| 0 <= k < di.len() implies di[k] == dj[k] by {
                assert(t[k] == di[k]);
                assert(a[k] == dj[k]);
                assert(a[k] == t[k]);
            }
            assert(di =~= dj);
            lemma_decimal_injective(i, j);
        }
    }
}

/// The entries of a list separated by `", "`.
pub open spec fn join(items: Seq<Seq<char>>) -> Seq<char>
    decreases items.len(),
{
    if items.len() == 0 {
        Seq::empty()
    } else if items.len() == 1 {
        items[0]
    } else {
        join(items.drop_last()) + ", "@ + items.last()
    }
}

/// The names `B1`, ..., `B<n>` of the branches of an n-ary choice.
pub open spec fn branch_names(n: nat) -> Seq<Seq<char>> {
    Seq::new(n, |k: int| "B"@ + decimal((k + 1) as nat))
}

/// Each entry of `items` followed by `suffix`.
pub open spec fn suffixed(items: Seq<Seq<char>>, suffix: Seq<char>) -> Seq<Seq<char>> {
    items.map_values(|x: Seq<char>| x + suffix)
}

/// For `n >= 1`, the comma-separated list is the `n` branch names, in order,
/// each followed by `after`.
pub proof fn lemma_comma_list_is_branch_names(n: nat, after: Seq<char>)
    requires
        n >= 1,
    ensures
        comma_list(n, ""@, after) == join(suffixed(branch_names(n), after)),
    decreases n,
{
    reveal_strlit("");
    let items = suffixed(branch_names(n), after);
    assert(item(""@, n, after) =~= "B"@ + decimal(n) + after);
    assert(items[n - 1] == "B"@ + decimal(n) + after);
    if n == 1 {
        assert(concat_below(1, list_entry(""@, after)) == Seq::<char>::empty());
        assert(comma_list(1, ""@, after) =~= items[0]);
    } else {
        lemma_comma_list_is_branch_names((n - 1) as nat, after);
        let f = list_entry(""@, after);
        let m = (n - 1) as nat;
        assert(concat_below(n, f) == concat_below(m, f) + f(m));
        assert(f(m) == item(""@, m, after) + ", "@);
        assert(comma_list(n, ""@, after) =~= comma_list(m, ""@, after) + ", "@ + item(""@, n, after));
        assert(items.drop_last() =~= suffixed(branch_names(m), after));
        assert(join(items) == join(items.drop_last()) + ", "@ + items.last());
    }
}

/// Adding nothing after each branch name leaves the names as they are.
proof fn lemma_suffixed_empty(items: Seq<Seq<char>>)
    ensures
        suffixed(items, ""@) == items,
{
    reveal_strlit("");
    assert forall|k: int| 0 <= k < items.len() implies #[trigger] suffixed(items, ""@)[k] == items[k] by {
        assert(items[k] + ""@ =~= items[k]);
    }
    assert(suffixed(items, ""@) =~= items);
}

/// The duality rule for the n-ary `Choose` (n >= 1) ranges over the branches
/// `B1`, ..., `B<n>` of the `Choose`, each bound by `HasDual`, and its `Dual`
/// is the n-ary `Offer` of their duals: the same branches, in the same order,
/// each followed by `::Dual`.
pub proof fn lemma_hasdual_choose_lists(n: nat)
    requires
        n >= 1,
    ensures
        hasdual_choose_text(n) == "unsafe impl <"@ + join(suffixed(branch_names(n), ": HasDual"@))
            + "> HasDual for Choose<("@ + join(branch_names(n)) + ")> { type Dual = Offer<("@
            + join(suffixed(branch_names(n), "::Dual"@)) + ")>; }"@,
        branch_names(n).len() == n,
        forall|k: int| 0 <= k < n ==> #[trigger] branch_names(n)[k] == "B"@ + decimal((k + 1) as nat),
{
    lemma_comma_list_is_branch_names(n, ": HasDual"@);
    lemma_comma_list_is_branch_names(n, ""@);
    lemma_comma_list_is_branch_names(n, "::Dual"@);
    lemma_suffixed_empty(branch_names(n));
}

/// The duality rule for the n-ary `Offer` (n >= 1) ranges over the branches
/// `B1`, ..., `B<n>` of the `Offer`, each bound by `HasDual`, and its `Dual`
/// is the n-ary `Choose` of their duals: the same branches, in the same
/// order, each followed by `::Dual`.
pub proof fn lemma_hasdual_offer_lists(n: nat)
    requires
        n >= 1,
    ensures
        hasdual_offer_text(n) == "unsafe impl <"@ + join(suffixed(branch_names(n), ": HasDual"@))
            + "> HasDual for Offer<("@ + join(branch_names(n)) + ")> { type Dual = Choose<("@
            + join(suffixed(branch_names(n), "::Dual"@)) + ")>; }"@,
        branch_names(n).len() == n,
        forall|k: int| 0 <= k < n ==> #[trigger] branch_names(n)[k] == "B"@ + decimal((k + 1) as nat),
{
    lemma_comma_list_is_branch_names(n, ": HasDual"@);
    lemma_comma_list_is_branch_names(n, ""@);
    lemma_comma_list_is_branch_names(n, "::Dual"@);
    lemma_suffixed_empty(branch_names(n));
}

} // verus!
