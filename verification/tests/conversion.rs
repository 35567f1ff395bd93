use currency_rates::conversion_rates::{
    Conversion, ConversionError, ConversionRequest, CurrenciesResponse, ErrorResponse,
    ExchangeRates, SuccessfulResponse, RATE_ONE_BITS,
};

/// Evaluate the floating-point formula a conversion decision prescribes,
/// exactly as the service's edge does.
fn apply(c: Conversion) -> f64 {
    match c {
        Conversion::Unchanged { sum } => f64::from_bits(sum),
        Conversion::FromBase { sum, rate_to } => f64::from_bits(sum) * f64::from_bits(rate_to),
        Conversion::ToBase { sum, rate_from } => f64::from_bits(sum) / f64::from_bits(rate_from),
        Conversion::CrossRate { sum, rate_from, rate_to } => {
            (f64::from_bits(sum) / f64::from_bits(rate_from)) * f64::from_bits(rate_to)
        }
    }
}

/// The table of the concrete scenario: base USD with rates for USD, EUR
/// and JPY.
fn scenario_table() -> ExchangeRates {
    let entries: Vec<(String, u64)> = vec![
        ("USD".to_string(), 1.0f64.to_bits()),
        ("EUR".to_string(), 0.9f64.to_bits()),
        ("JPY".to_string(), 150.0f64.to_bits()),
    ];
    ExchangeRates::build_table("USD".to_string(), &entries)
}

fn request(from: &str, to: &str, sum: f64) -> ConversionRequest {
    ConversionRequest {
        from: from.to_string(),
        to: to.to_string(),
        sum: sum.to_bits(),
    }
}

fn convert_value(table: &ExchangeRates, from: &str, to: &str, sum: f64) -> f64 {
    apply(table.convert(request(from, to, sum)).unwrap())
}

#[test]
fn scenario_usd_to_eur() {
    let table = scenario_table();
    assert_eq!(convert_value(&table, "USD", "EUR", 100.0), 90.0);
}

#[test]
fn scenario_eur_to_usd() {
    let table = scenario_table();
    assert_eq!(convert_value(&table, "EUR", "USD", 90.0), 100.0);
}

#[test]
fn scenario_eur_to_jpy_cross_formula() {
    let table = scenario_table();
    let got = convert_value(&table, "EUR", "JPY", 10.0);
    // Bit-for-bit the two-step route through the base, not any direct
    // cross-rate formula.
    assert_eq!(got.to_bits(), ((10.0f64 / 0.9f64) * 150.0f64).to_bits());
    assert!((got - 1666.67).abs() < 0.01);
}

#[test]
fn scenario_usd_to_usd() {
    let table = scenario_table();
    assert_eq!(convert_value(&table, "USD", "USD", 50.0), 50.0);
}

#[test]
fn scenario_unknown_from() {
    let table = scenario_table();
    match table.convert(request("GBP", "USD", 10.0)) {
        Err(ConversionError::UnknownCurrency(c)) => assert_eq!(c, "GBP"),
        other => panic!("expected UnknownCurrency, got {:?}", other),
    }
}

#[test]
fn unknown_target_reported_after_source() {
    let table = scenario_table();
    match table.convert(request("USD", "GBP", 10.0)) {
        Err(ConversionError::UnknownCurrency(c)) => assert_eq!(c, "GBP"),
        other => panic!("expected UnknownCurrency, got {:?}", other),
    }
}

#[test]
fn same_stored_currency_is_identity() {
    let table = scenario_table();
    let sum = 123.456f64;
    assert_eq!(convert_value(&table, "EUR", "EUR", sum).to_bits(), sum.to_bits());
}

#[test]
fn from_base_multiplies_by_target_rate() {
    let table = scenario_table();
    let got = convert_value(&table, "USD", "JPY", 2.5);
    assert_eq!(got.to_bits(), (2.5f64 * 150.0f64).to_bits());
}

#[test]
fn to_base_divides_by_source_rate() {
    let table = scenario_table();
    assert_eq!(convert_value(&table, "JPY", "USD", 300.0), 2.0);
}

#[test]
fn empty_table_refuses_even_base_to_base() {
    let table = ExchangeRates::default();
    match table.convert(request("USD", "USD", 1.0)) {
        Err(ConversionError::EmptyRateTable) => {}
        other => panic!("expected EmptyRateTable, got {:?}", other),
    }
}

#[test]
fn zero_rate_divisor_is_invalid() {
    let mut table = scenario_table();
    table.insert("XXX".to_string(), 0.0f64.to_bits());
    match table.convert(request("XXX", "USD", 5.0)) {
        Err(ConversionError::InvalidRate(c)) => assert_eq!(c, "XXX"),
        other => panic!("expected InvalidRate, got {:?}", other),
    }
    match table.convert(request("XXX", "EUR", 5.0)) {
        Err(ConversionError::InvalidRate(c)) => assert_eq!(c, "XXX"),
        other => panic!("expected InvalidRate, got {:?}", other),
    }
}

#[test]
fn negative_zero_rate_divisor_is_invalid() {
    let mut table = scenario_table();
    table.insert("XXX".to_string(), (-0.0f64).to_bits());
    match table.convert(request("XXX", "USD", 5.0)) {
        Err(ConversionError::InvalidRate(c)) => assert_eq!(c, "XXX"),
        other => panic!("expected InvalidRate, got {:?}", other),
    }
}

#[test]
fn zero_rate_as_multiplier_is_allowed() {
    let mut table = scenario_table();
    table.insert("XXX".to_string(), 0.0f64.to_bits());
    assert_eq!(convert_value(&table, "USD", "XXX", 100.0), 0.0);
}

#[test]
fn currency_existence() {
    let table = scenario_table();
    assert!(table.check_if_currency_exists("USD".to_string()));
    assert!(table.check_if_currency_exists("EUR".to_string()));
    assert!(!table.check_if_currency_exists("GBP".to_string()));
}

#[test]
fn base_exists_even_without_stored_rate() {
    let table = ExchangeRates::default();
    assert!(table.check_if_currency_exists("USD".to_string()));
    assert_eq!(table.rate_of("USD"), Some(RATE_ONE_BITS));
    assert_eq!(table.rate_of("EUR"), None);
}

#[test]
fn rate_of_returns_stored_rates() {
    let table = scenario_table();
    assert_eq!(table.rate_of("EUR"), Some(0.9f64.to_bits()));
    assert_eq!(table.rate_of("JPY"), Some(150.0f64.to_bits()));
    assert_eq!(table.rate_of("GBP"), None);
}

#[test]
fn normalization_overwrites_provider_base_rate() {
    // A provider payload that carries a bogus rate for the base itself is
    // overwritten with 1.0 when the table is built.
    let entries: Vec<(String, u64)> = vec![
        ("USD".to_string(), 3.7f64.to_bits()),
        ("EUR".to_string(), 0.9f64.to_bits()),
    ];
    let table = ExchangeRates::build_table("USD".to_string(), &entries);
    assert_eq!(table.rate_of("USD"), Some(1.0f64.to_bits()));
}

#[test]
fn normalization_inserts_missing_base() {
    let entries: Vec<(String, u64)> = vec![("EUR".to_string(), 0.9f64.to_bits())];
    let table = ExchangeRates::build_table("USD".to_string(), &entries);
    let mut codes = table.get_all_currencies();
    codes.sort();
    assert_eq!(codes, vec!["EUR".to_string(), "USD".to_string()]);
}

#[test]
fn insert_replaces_existing_entry() {
    let mut table = ExchangeRates::default();
    table.insert("EUR".to_string(), 0.9f64.to_bits());
    table.insert("EUR".to_string(), 0.8f64.to_bits());
    assert_eq!(table.rate_of("EUR"), Some(0.8f64.to_bits()));
    assert_eq!(table.get_all_currencies(), vec!["EUR".to_string()]);
}

#[test]
fn all_currencies_listed() {
    let table = scenario_table();
    let mut codes = table.get_all_currencies();
    codes.sort();
    assert_eq!(
        codes,
        vec!["EUR".to_string(), "JPY".to_string(), "USD".to_string()]
    );
}

#[test]
fn error_messages() {
    assert_eq!(
        ConversionError::UnknownCurrency("GBP".to_string()).message(),
        "Wrong currency provided GBP"
    );
    assert_eq!(
        ConversionError::EmptyRateTable.message(),
        "Wrong currency provided"
    );
    assert_eq!(
        ConversionError::InvalidRate("XXX".to_string()).message(),
        "Invalid rate stored for XXX"
    );
}

#[test]
fn response_constructors() {
    let ok = SuccessfulResponse::construct(90.0f64.to_bits());
    assert!(ok.status);
    assert_eq!(f64::from_bits(ok.sum), 90.0);

    let err = ErrorResponse::construct("Wrong currency provided GBP");
    assert!(!err.status);
    assert_eq!(err.error, "Wrong currency provided GBP");

    let list = CurrenciesResponse::construct(vec!["USD".to_string()]);
    assert!(list.status);
    assert_eq!(list.data, vec!["USD".to_string()]);
}
