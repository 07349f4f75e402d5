use electricity::address::{Address, AddressRow, Building, BuildingNumber, BuildingRange};
use electricity::addresses::{
    address_number, address_number_pair, address_number_range, address_row, bez_broj, broj,
    broj_list, settlement,
};

fn number(value: usize, extension: Option<&str>) -> BuildingNumber {
    BuildingNumber { value, extension: extension.map(|e| e.to_owned()) }
}

fn plain(value: usize) -> BuildingNumber {
    number(value, None)
}

fn range(from: BuildingNumber, to: BuildingNumber) -> Building {
    Building::Range(BuildingRange { from, to })
}

#[test]
fn test_can_parse_complicated_address() {
    let res = address_number("36A/1").expect("parse the compilcated regular address");
    assert_eq!(res, (String::new(), number(36, Some("A/1"))));
}

#[test]
fn test_can_parse_a_range_of_addresses() {
    let res = address_number_range("123-321").expect("parse the range of addresses");
    assert_eq!(res, (String::new(), BuildingRange { from: plain(123), to: plain(321) }));
}

#[test]
fn test_can_parse_one_of() {
    let res = broj("BB").expect("recognize BB");
    assert_eq!(res, (String::new(), Building::Bb(None)));

    let res = broj("123A").expect("recognize an address number");
    assert_eq!(res, (String::new(), Building::Number(number(123, Some("A")))));

    let res = broj("123A-321B").expect("recognize an addresses range");
    assert_eq!(res, (String::new(), range(number(123, Some("A")), number(321, Some("B")))));
}

#[test]
fn test_can_parse_numbers_sequences() {
    let res = broj_list("BB,123,123-321").expect("parse the sequence of numbers");
    assert_eq!(
        res,
        (
            String::new(),
            vec![Building::Bb(None), Building::Number(plain(123)), range(plain(123), plain(321))]
        )
    )
}

#[test]
fn test_ignores_trailing_whitespaces() {
    let res = broj_list("   BB,BB   ").expect("rejects whitespaces before and after the sequence");
    assert_eq!(res, (String::new(), vec![Building::Bb(None), Building::Bb(None)]))
}

#[test]
fn test_can_recognize_trailing_comma() {
    let res =
        broj_list("BB,").expect("parse the sequence of addresses followed by the trailing comma");
    assert_eq!(res, (String::new(), vec![Building::Bb(None)]));
}

#[test]
fn test_reject_simple_comma() {
    let res = broj("");
    assert!(res.is_err());

    let res = broj_list("   ,   ");
    assert!(res.is_err());
}

#[test]
fn test_parse() {
    let res = address_number_pair("  AUTOPUT ZA NOVI SAD  : BB,284,294-296F,").unwrap();
    assert_eq!(
        res,
        (
            String::new(),
            Address::new(
                "AUTOPUT ZA NOVI SAD",
                vec![
                    Building::Bb(None),
                    Building::Number(plain(284)),
                    range(number(294, None), number(296, Some("F"))),
                ]
            )
        )
    );
}

#[test]
fn test_parse_multiple_addresses() {
    let res = address_row(
        "autoput za novi sad: bb,284,294-296f,  batajnički drum: bb,261-265,269,303-303a,",
    )
    .expect("parse the address row");

    assert_eq!(
        res,
        vec![
            Address::new(
                "autoput za novi sad",
                vec![
                    Building::Bb(None),
                    Building::Number(plain(284)),
                    range(number(294, None), number(296, Some("f"))),
                ]
            ),
            Address::new(
                "batajnički drum",
                vec![
                    Building::Bb(None),
                    range(plain(261), plain(265)),
                    Building::Number(plain(269)),
                    range(number(303, None), number(303, Some("a"))),
                ]
            ),
        ]
    );
}

#[test]
fn test_settlement_parser() {
    let input = "naselje ripanj: put za marića kraj: 24,65-67, put za žuti potok: 14b,";
    let (_, res) = settlement(input).expect("can parse settlement");
    assert_eq!(
        res,
        vec![
            Address::with_settlement(
                "ripanj",
                "put za marića kraj",
                vec![Building::Number(plain(24)), range(plain(65), plain(67))],
            ),
            Address::with_settlement(
                "ripanj",
                "put za žuti potok",
                vec![Building::Number(number(14, Some("b")))],
            ),
        ]
    );
}

#[test]
fn test_non_empty_bb() {
    let input = "drum: bb,bbimm stub-2,bbstub 10,bbstub-9,";
    let res = address_row(input).expect("parse non empty BB");
    assert_eq!(
        res[0],
        Address::new(
            "drum",
            vec![
                Building::Bb(None),
                Building::Bb(Some("imm stub-2".to_string())),
                Building::Bb(Some("stub 10".to_string())),
                Building::Bb(Some("stub-9".to_string())),
            ]
        )
    )
}

#[test]
fn bare_number_keeps_letter_and_subnumber() {
    let res = broj("36A/1").unwrap();
    assert_eq!(res, (String::new(), Building::Number(number(36, Some("A/1")))));
}

#[test]
fn slash_without_digits_is_left_over() {
    let res = address_number("7b/").unwrap();
    assert_eq!(res, ("/".to_string(), number(7, Some("b"))));
}

#[test]
fn range_is_one_building() {
    let res = broj_list("123-321").unwrap();
    assert_eq!(res, (String::new(), vec![range(plain(123), plain(321))]));
}

#[test]
fn row_keeps_building_order() {
    let row = AddressRow::parse("ulica: BB,123,123-321").unwrap();
    let items = row.into_items();
    assert_eq!(items.len(), 1);
    assert_eq!(
        items[0].buildings,
        vec![Building::Bb(None), Building::Number(plain(123)), range(plain(123), plain(321))]
    );
}

#[test]
fn trailing_comma_changes_nothing() {
    assert_eq!(broj_list("BB,").unwrap(), broj_list("BB").unwrap());
    assert_eq!(AddressRow::parse("a: BB,").unwrap(), AddressRow::parse("a: BB").unwrap());
}

#[test]
fn surrounding_space_changes_nothing() {
    assert_eq!(broj_list("   BB,BB   ").unwrap(), broj_list("BB,BB").unwrap());
}

#[test]
fn empty_token_and_bare_comma_are_rejected() {
    assert!(broj_list("").is_err());
    assert!(broj_list(",").is_err());
    assert!(AddressRow::parse("").is_err());
    assert!(AddressRow::parse(",").is_err());
    assert!(AddressRow::parse("ulica: ,").is_err());
}

#[test]
fn settlement_scope_ends_at_end_of_input() {
    let row = AddressRow::parse(
        "naselje ripanj: put za marića kraj: 24,65-67, put za žuti potok: 14b,",
    )
    .unwrap();
    let items = row.into_items();
    assert_eq!(items.len(), 2);
    assert!(items.iter().all(|a| a.settlement.as_deref() == Some("ripanj")));
    assert_eq!(items[0].street, "put za marića kraj");
    assert_eq!(items[1].street, "put za žuti potok");
}

#[test]
fn next_settlement_starts_a_new_block() {
    let items = address_row("naselje a: x: 1, naselje b: y: 2, z: 3").unwrap();
    assert_eq!(
        items,
        vec![
            Address::with_settlement("a", "x", vec![Building::Number(plain(1))]),
            Address::with_settlement("b", "y", vec![Building::Number(plain(2))]),
            Address::with_settlement("b", "z", vec![Building::Number(plain(3))]),
        ]
    );
}

#[test]
fn bb_marker_in_capitals_has_note() {
    let res = bez_broj("BBstub 10,").unwrap();
    assert_eq!(res, (",".to_string(), Building::Bb(Some("stub 10".to_string()))));
    assert!(bez_broj("b").is_err());
}

#[test]
fn leftover_text_fails_the_row() {
    let res = address_row("drum: 1,2 ;");
    let err = res.unwrap_err();
    assert_eq!(err.position, 10);
    assert!(address_row("drum: 1,2").is_ok());
}

#[test]
fn number_too_large_is_rejected() {
    assert!(address_number("99999999999999999999999").is_err());
    assert_eq!(address_number("18446744073709551615").unwrap().1, plain(18446744073709551615));
}

#[test]
fn buildings_are_written_back() {
    assert_eq!(number(36, Some("A/1")).to_text(), "36A/1");
    assert_eq!(plain(0).to_text(), "0");
    assert_eq!(BuildingRange { from: plain(294), to: number(296, Some("f")) }.to_text(), "294-296f");
    assert_eq!(Building::Bb(None).to_text(), "BB");
    assert_eq!(Building::Bb(Some("stub 10".to_string())).to_text(), "BB stub 10");
    let row = AddressRow::parse("drum: bb,12-14, put: 7a").unwrap();
    assert_eq!(row.to_text(), "drum: BB,12-14,\nput: 7a,\n");
    assert_eq!(
        Address::with_settlement("x", "ulica", vec![Building::Number(plain(18446744073709551615))]).to_text(),
        "ulica: 18446744073709551615,"
    );
}

#[test]
fn bb_note_takes_trailing_blanks_in() {
    let (rest, list) = broj_list("bbstub  ").unwrap();
    assert_eq!(rest, "");
    assert_eq!(list, vec![Building::Bb(Some("stub  ".to_string()))]);
    assert_eq!(broj_list("\t 12a,BB \n").unwrap(), broj_list("12a,BB").unwrap());
}
