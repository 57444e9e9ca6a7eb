use receipts::action::{Effect, FormField};
use receipts::parse::{parse_price, parse_quantity};
use receipts::sale::{
    handle_hotkey, next_target, update, EditMessage, Field, Hotkey, Instruction, Message, Mode,
    Modifiers, Sale, SaleItem, ShowMessage,
};
use receipts::tax::TaxGroup;

fn edit(sale: &mut Sale, next: &mut usize, m: EditMessage) -> Option<Effect> {
    update(sale, Message::Edit(m), next).effect
}

fn one_item_sale() -> (Sale, usize) {
    let mut sale = Sale::new();
    let mut next: usize = 0;
    edit(&mut sale, &mut next, EditMessage::AddItem);
    let id = sale.items[0].id;
    edit(&mut sale, &mut next, EditMessage::UpdateItem(id, Field::Price("10.00".to_string())));
    edit(&mut sale, &mut next, EditMessage::UpdateItem(id, Field::Quantity("2".to_string())));
    edit(&mut sale, &mut next, EditMessage::UpdateItem(id, Field::TaxGroup(TaxGroup::Standard)));
    (sale, next)
}

#[test]
fn totals_of_example_sale() {
    let (mut sale, mut next) = one_item_sale();
    edit(&mut sale, &mut next, EditMessage::UpdateServiceCharge("10".to_string()));
    edit(&mut sale, &mut next, EditMessage::UpdateGratuity("5".to_string()));
    assert_eq!(sale.calculate_subtotal(), Some(20_000_000));
    assert_eq!(sale.calculate_tax(), Some(1_600_000));
    assert_eq!(sale.calculate_service_charge(), Some(2_000_000));
    assert_eq!(sale.calculate_total(), Some(28_600_000));
}

#[test]
fn total_is_sum_of_parts() {
    let (mut sale, mut next) = one_item_sale();
    edit(&mut sale, &mut next, EditMessage::AddItem);
    let id = sale.items[1].id;
    edit(&mut sale, &mut next, EditMessage::UpdateItem(id, Field::Price("3.35".to_string())));
    edit(&mut sale, &mut next, EditMessage::UpdateItem(id, Field::Quantity("7".to_string())));
    edit(&mut sale, &mut next, EditMessage::UpdateServiceCharge("12.50".to_string()));
    edit(&mut sale, &mut next, EditMessage::UpdateGratuity("1.99".to_string()));
    let parts = sale.calculate_subtotal().unwrap()
        + sale.calculate_tax().unwrap()
        + sale.calculate_service_charge().unwrap()
        + 199 * 10000;
    assert_eq!(sale.calculate_total(), Some(parts));
    // food at 5%: 2345 cents * 500 bp; standard at 8%: 2000 cents * 800 bp
    assert_eq!(sale.calculate_tax(), Some(2345 * 500 + 2000 * 800));
}

#[test]
fn blank_sale_totals_are_zero() {
    let sale = Sale::new();
    assert_eq!(sale.calculate_subtotal(), Some(0));
    assert_eq!(sale.calculate_tax(), Some(0));
    assert_eq!(sale.calculate_service_charge(), Some(0));
    assert_eq!(sale.calculate_total(), Some(0));
}

#[test]
fn missing_price_counts_as_zero() {
    let mut sale = Sale::new();
    let mut next: usize = 0;
    edit(&mut sale, &mut next, EditMessage::AddItem);
    let id = sale.items[0].id;
    edit(&mut sale, &mut next, EditMessage::UpdateItem(id, Field::Quantity("4".to_string())));
    assert_eq!(sale.calculate_subtotal(), Some(0));
    assert_eq!(sale.items[0].price(), 0);
    assert_eq!(sale.items[0].quantity(), 4);
}

#[test]
fn large_amounts_stay_exact() {
    let mut sale = Sale::new();
    let mut next: usize = 0;
    edit(&mut sale, &mut next, EditMessage::AddItem);
    let id = sale.items[0].id;
    edit(&mut sale, &mut next, EditMessage::UpdateItem(id, Field::Price("92233720368547758.07".to_string())));
    edit(&mut sale, &mut next, EditMessage::UpdateItem(id, Field::Quantity("4294967295".to_string())));
    let line: i128 = 9223372036854775807i128 * 4294967295i128;
    assert_eq!(sale.calculate_subtotal(), Some(line * 10000));
}

#[test]
fn parse_price_reads_cents() {
    assert_eq!(parse_price("10.00"), Some(1000));
    assert_eq!(parse_price("12.5"), Some(1250));
    assert_eq!(parse_price("7"), Some(700));
    assert_eq!(parse_price(".5"), Some(50));
    assert_eq!(parse_price("3."), Some(300));
    assert_eq!(parse_price(""), None);
    assert_eq!(parse_price("."), None);
    assert_eq!(parse_price("1.234"), None);
    assert_eq!(parse_price("abc"), None);
    assert_eq!(parse_price("1.2.3"), None);
    assert_eq!(parse_price("184467440737095516.16"), None);
    assert_eq!(parse_price("-1"), Some(-100));
    assert_eq!(parse_price("+2.5"), Some(250));
    assert_eq!(parse_price("-.05"), Some(-5));
    assert_eq!(parse_price("-"), None);
    assert_eq!(parse_price("--1"), None);
    assert_eq!(parse_price("92233720368547758.07"), Some(i64::MAX));
    assert_eq!(parse_price("92233720368547758.08"), None);
    assert_eq!(parse_price("-92233720368547758.07"), Some(-i64::MAX));
}

#[test]
fn parse_quantity_reads_u32() {
    assert_eq!(parse_quantity("42"), Some(42));
    assert_eq!(parse_quantity("0"), Some(0));
    assert_eq!(parse_quantity("4294967295"), Some(4294967295));
    assert_eq!(parse_quantity("4294967296"), None);
    assert_eq!(parse_quantity("-1"), None);
    assert_eq!(parse_quantity(""), None);
    assert_eq!(parse_quantity("2x"), None);
    assert_eq!(parse_quantity("+5"), Some(5));
    assert_eq!(parse_quantity("+"), None);
    assert_eq!(parse_quantity("++5"), None);
    assert_eq!(parse_quantity("5+"), None);
}

#[test]
fn invalid_entry_unsets_field() {
    let (mut sale, mut next) = one_item_sale();
    let id = sale.items[0].id;
    edit(&mut sale, &mut next, EditMessage::UpdateItem(id, Field::Price("ten".to_string())));
    edit(&mut sale, &mut next, EditMessage::UpdateItem(id, Field::Quantity("".to_string())));
    assert_eq!(sale.items[0].price, None);
    assert_eq!(sale.items[0].quantity, None);
    assert_eq!(sale.items[0].price_string(), "");
    assert_eq!(sale.items[0].quantity_string(), "");
}

#[test]
fn field_strings() {
    let (sale, _) = one_item_sale();
    assert_eq!(sale.items[0].price_string(), "10.00");
    assert_eq!(sale.items[0].quantity_string(), "2");
    let mut item = SaleItem::blank(9);
    item.price = Some(5);
    item.quantity = Some(1234);
    assert_eq!(item.price_string(), "0.05");
    assert_eq!(item.quantity_string(), "1234");
    item.price = Some(-1250);
    assert_eq!(item.price_string(), "-12.50");
    item.price = Some(i64::MIN);
    assert_eq!(item.price_string(), "-92233720368547758.08");
}

#[test]
fn negative_price_lowers_totals() {
    let (mut sale, mut next) = one_item_sale();
    edit(&mut sale, &mut next, EditMessage::AddItem);
    let id = sale.items[1].id;
    edit(&mut sale, &mut next, EditMessage::UpdateItem(id, Field::Price("-2.50".to_string())));
    edit(&mut sale, &mut next, EditMessage::UpdateItem(id, Field::Quantity("+2".to_string())));
    assert_eq!(sale.items[1].price(), -250);
    assert_eq!(sale.items[1].quantity(), 2);
    assert_eq!(sale.calculate_subtotal(), Some(15_000_000));
    // 2000 cents at 8%, -500 cents at 5%
    assert_eq!(sale.calculate_tax(), Some(2000 * 800 - 500 * 500));
    edit(&mut sale, &mut next, EditMessage::UpdateGratuity("-1".to_string()));
    assert_eq!(sale.calculate_total(), Some(15_000_000 + 1_350_000 - 1_000_000));
}

#[test]
fn unreadable_charges_are_unset() {
    let (mut sale, mut next) = one_item_sale();
    edit(&mut sale, &mut next, EditMessage::UpdateServiceCharge("10".to_string()));
    edit(&mut sale, &mut next, EditMessage::UpdateGratuity("2".to_string()));
    assert_eq!(sale.service_charge_percent, Some(1000));
    assert_eq!(sale.gratuity_amount, Some(200));
    edit(&mut sale, &mut next, EditMessage::UpdateServiceCharge("ten".to_string()));
    edit(&mut sale, &mut next, EditMessage::UpdateGratuity("".to_string()));
    assert_eq!(sale.service_charge_percent, None);
    assert_eq!(sale.gratuity_amount, None);
    assert_eq!(sale.calculate_service_charge(), Some(0));
}

#[test]
fn submit_moves_through_fields_then_adds_row() {
    let mut sale = Sale::new();
    let mut next: usize = 0;
    edit(&mut sale, &mut next, EditMessage::AddItem);
    let id = sale.items[0].id;
    assert_eq!(next_target(&sale.items[0]), Some(FormField::Name));
    assert_eq!(edit(&mut sale, &mut next, EditMessage::SubmitItem(id)), Some(Effect::Focus(FormField::Name, id)));
    edit(&mut sale, &mut next, EditMessage::UpdateItem(id, Field::Name("Tea".to_string())));
    assert_eq!(next_target(&sale.items[0]), Some(FormField::Quantity));
    assert_eq!(edit(&mut sale, &mut next, EditMessage::SubmitItem(id)), Some(Effect::Focus(FormField::Quantity, id)));
    edit(&mut sale, &mut next, EditMessage::UpdateItem(id, Field::Quantity("3".to_string())));
    assert_eq!(next_target(&sale.items[0]), Some(FormField::Price));
    assert_eq!(edit(&mut sale, &mut next, EditMessage::SubmitItem(id)), Some(Effect::Focus(FormField::Price, id)));
    edit(&mut sale, &mut next, EditMessage::UpdateItem(id, Field::Price("1.20".to_string())));
    assert_eq!(next_target(&sale.items[0]), None);
    assert_eq!(sale.items.len(), 1);
    let effect = edit(&mut sale, &mut next, EditMessage::SubmitItem(id));
    assert_eq!(sale.items.len(), 2);
    let new_id = sale.items[1].id;
    assert_ne!(new_id, id);
    assert_eq!(sale.items[1].name, "");
    assert_eq!(effect, Some(Effect::Focus(FormField::Name, new_id)));
}

#[test]
fn submit_unknown_item_does_nothing() {
    let (mut sale, mut next) = one_item_sale();
    let effect = edit(&mut sale, &mut next, EditMessage::SubmitItem(999));
    assert_eq!(effect, None);
    assert_eq!(sale.items.len(), 1);
}

#[test]
fn name_submit_creates_first_row_once() {
    let mut sale = Sale::new();
    let mut next: usize = 0;
    edit(&mut sale, &mut next, EditMessage::NameInput("Lunch".to_string()));
    assert_eq!(sale.name, "Lunch");
    assert_eq!(edit(&mut sale, &mut next, EditMessage::NameSubmit), Some(Effect::FocusNext));
    assert_eq!(sale.items.len(), 1);
    edit(&mut sale, &mut next, EditMessage::NameSubmit);
    assert_eq!(sale.items.len(), 1);
}

#[test]
fn remove_item_keeps_others_in_order() {
    let mut sale = Sale::new();
    let mut next: usize = 0;
    for _ in 0..3 {
        edit(&mut sale, &mut next, EditMessage::AddItem);
    }
    let ids: Vec<usize> = sale.items.iter().map(|i| i.id).collect();
    edit(&mut sale, &mut next, EditMessage::RemoveItem(ids[1]));
    let left: Vec<usize> = sale.items.iter().map(|i| i.id).collect();
    assert_eq!(left, vec![ids[0], ids[2]]);
    edit(&mut sale, &mut next, EditMessage::AddItem);
    assert!(!ids.contains(&sale.items[2].id));
}

#[test]
fn instructions_from_messages() {
    let mut sale = Sale::new();
    let mut next: usize = 0;
    let a = update(&mut sale, Message::Show(ShowMessage::StartEdit), &mut next);
    assert_eq!(a.instruction, Some(Instruction::StartEdit));
    assert_eq!(a.effect, Some(Effect::FocusNext));
    let a = update(&mut sale, Message::Show(ShowMessage::Back), &mut next);
    assert_eq!(a.instruction, Some(Instruction::Back));
    let a = update(&mut sale, Message::Edit(EditMessage::Save), &mut next);
    assert_eq!(a.instruction, Some(Instruction::Save));
    let a = update(&mut sale, Message::Edit(EditMessage::Cancel), &mut next);
    assert_eq!(a.instruction, Some(Instruction::Cancel));
    assert_eq!(a.effect, None);
}

#[test]
fn hotkeys_on_sale_screens() {
    let sale = Sale::new();
    let plain = Modifiers { shift: false, control: false, alt: false, logo: false };
    let shift = Modifiers { shift: true, ..plain };
    assert_eq!(handle_hotkey(&sale, Mode::Edit, Hotkey::Escape).instruction, Some(Instruction::Cancel));
    assert_eq!(handle_hotkey(&sale, Mode::View, Hotkey::Escape).instruction, Some(Instruction::Back));
    let a = handle_hotkey(&sale, Mode::Edit, Hotkey::Tab(plain));
    assert_eq!(a.instruction, None);
    assert_eq!(a.effect, Some(Effect::FocusNext));
    assert_eq!(handle_hotkey(&sale, Mode::View, Hotkey::Tab(shift)).effect, Some(Effect::FocusPrevious));
    let control = Modifiers { control: true, ..plain };
    assert_eq!(handle_hotkey(&sale, Mode::Edit, Hotkey::Tab(control)).effect, Some(Effect::FocusPrevious));
}

#[test]
fn tax_rates() {
    assert_eq!(TaxGroup::Standard.tax_rate(), 800);
    assert_eq!(TaxGroup::Food.tax_rate(), 500);
}
