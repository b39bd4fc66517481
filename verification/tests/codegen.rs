use session_types::codegen::{
    branch_impls, branch_struct, choose_impl, commalist, hasdual_choose_impl, hasdual_offer_impl,
    impl_branch, offer_impl,
};

#[test]
fn commalist_forms() {
    assert_eq!(commalist(3, "", ""), "B1, B2, B3");
    assert_eq!(commalist(2, "", ": HasDual"), "B1: HasDual, B2: HasDual");
    assert_eq!(commalist(2, "Chan<E, ", ">"), "Chan<E, B1>, Chan<E, B2>");
    assert_eq!(commalist(1, "", "::Dual"), "B1::Dual");
    assert_eq!(commalist(0, "", ""), "B0");
    let long = commalist(12, "", "");
    assert!(long.starts_with("B1, B2, "));
    assert!(long.ends_with("B10, B11, B12"));
    assert!(commalist(254, "", "").ends_with("B253, B254"));
}

#[test]
fn branch_struct_text() {
    assert_eq!(branch_struct(2), "pub enum Branch2<B1, B2> { B1(B1), B2(B2),  }");
    assert_eq!(
        branch_struct(3),
        "pub enum Branch3<B1, B2, B3> { B1(B1), B2(B2), B3(B3),  }"
    );
}

#[test]
fn hasdual_texts() {
    assert_eq!(
        hasdual_choose_impl(2),
        "unsafe impl <B1: HasDual, B2: HasDual> HasDual for Choose<(B1, B2)> { type Dual = Offer<(B1::Dual, B2::Dual)>; }"
    );
    assert_eq!(
        hasdual_offer_impl(2),
        "unsafe impl <B1: HasDual, B2: HasDual> HasDual for Offer<(B1, B2)> { type Dual = Choose<(B1::Dual, B2::Dual)>; }"
    );
}

#[test]
fn choose_impl_text() {
    assert_eq!(
        choose_impl(2),
        "impl <E, B1, B2> Chan<E, Choose<(B1, B2)>> { \
#[must_use] pub fn sel1(self) -> Chan<E, B1> { unsafe { write_chan(&self, 1); transmute(self) } } \
#[must_use] pub fn sel2(self) -> Chan<E, B2> { unsafe { write_chan(&self, 2); transmute(self) } } }"
    );
}

#[test]
fn offer_impl_text() {
    assert_eq!(
        offer_impl(2),
        "impl <E, B1, B2> Chan<E, Offer<(B1, B2)>> { #[must_use] pub fn offer(self) -> Branch2<Chan<E, B1>, Chan<E, B2>> { \
unsafe { match read_chan(&self) { 1u8 => Branch2::B1(transmute(self)), 2u8 => Branch2::B2(transmute(self)), \
_ => unreachable!() } } } }"
    );
}

#[test]
fn impl_branch_items() {
    let items = impl_branch(2);
    assert_eq!(items.len(), 5);
    assert_eq!(items[0], branch_struct(2));
    assert_eq!(items[1], hasdual_choose_impl(2));
    assert_eq!(items[2], hasdual_offer_impl(2));
    assert_eq!(items[3], offer_impl(2));
    assert_eq!(items[4], choose_impl(2));
}

#[test]
fn branch_impls_items() {
    assert!(branch_impls(0).is_empty());
    assert!(branch_impls(1).is_empty());
    let all = branch_impls(4);
    assert_eq!(all.len(), 15);
    assert_eq!(all[0], branch_struct(2));
    assert_eq!(all[5], branch_struct(3));
    assert_eq!(all[14], choose_impl(4));
}

// Each `sel<i>` writes the tag `i`, and `offer` has exactly one arm for that
// tag, which goes to `B<i>`.
#[test]
fn sel_tags_are_decoded_by_offer() {
    let n: u8 = 12;
    let sels = choose_impl(n);
    let offer = offer_impl(n);
    for i in 1..=n {
        let sel = format!(
            "pub fn sel{}(self) -> Chan<E, B{}> {{ unsafe {{ write_chan(&self, {}); transmute(self) }} }} ",
            i, i, i
        );
        assert_eq!(sels.matches(sel.as_str()).count(), 1);
        let arm = format!("{}u8 => Branch12::B{}(transmute(self)), ", i, i);
        assert_eq!(offer.matches(arm.as_str()).count(), 1);
    }
    assert_eq!(offer.matches("_ => unreachable!()").count(), 1);
}
