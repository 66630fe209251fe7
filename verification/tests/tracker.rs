use crypto_tracker::datetime::{
    representable_rows, stored_timestamp_text, timestamp_seconds, utc_date_label, utc_timestamp_text,
};
use crypto_tracker::app_state::{App, KeyAction, KeyInput, LookupOutcome};
use crypto_tracker::config::{interval_or_default, parse_u64};
use crypto_tracker::consulta::{
    parse_token_line, tokens_from_lines, tokens_to_delete, tokens_to_register, ConsultaCrypto,
};
use crypto_tracker::price_file::{split_data_line, DataLineError};
use crypto_tracker::prompt::{my_vec_list_crypto, validate_query_name, NameCheck};
use crypto_tracker::queries::prices_query;
use crypto_tracker::text::{join_texts, same_text, split_text, trimmed, words_of};
use crypto_tracker::timers::{
    info_token_action, info_update_error_message, tokens_read_error_message, CoinFetch, InfoAction,
    TOKEN_INFO_INTERVAL_SECS, TOKEN_REGISTRY_INTERVAL_SECS,
};
use crypto_tracker::urls::{
    coin_data_url, concat_url, concat_vector_to_string, market_chart_url, price_sources,
    simple_price_url, tradingview_price_url, PriceSource,
};

fn strings(items: &[&str]) -> Vec<String> {
    items.iter().map(|s| s.to_string()).collect()
}

const RESET: &str = "\u{1b}[0;39;49m";

#[test]
fn trimmed_removes_unicode_white_space() {
    assert_eq!(trimmed("  bitcoin \t\n"), "bitcoin");
    assert_eq!(trimmed("\u{3000}eth\u{a0}"), "eth");
    assert_eq!(trimmed("   "), "");
    assert_eq!(trimmed("a b"), "a b");
}

#[test]
fn split_text_keeps_empty_pieces() {
    assert_eq!(split_text("a,b", ','), strings(&["a", "b"]));
    assert_eq!(split_text("", ','), strings(&[""]));
    assert_eq!(split_text("a,,b,", ','), strings(&["a", "", "b", ""]));
}

#[test]
fn join_texts_puts_separator_between() {
    assert_eq!(join_texts(&strings(&["a", "b", "c"]), ","), "a,b,c");
    assert_eq!(join_texts(&strings(&[]), ","), "");
    assert_eq!(join_texts(&strings(&["solo"]), ","), "solo");
}

#[test]
fn same_text_compares_characters() {
    assert!(same_text("all", "all"));
    assert!(!same_text("all", "al"));
    assert!(!same_text("price", "prica"));
}

#[test]
fn words_of_skips_runs_of_white_space() {
    assert_eq!(words_of("  1700000000.000\t  42.125  x "), strings(&["1700000000.000", "42.125", "x"]));
    assert_eq!(words_of("   "), strings(&[]));
}

#[test]
fn parse_token_line_trims_each_token() {
    assert_eq!(parse_token_line(" bitcoin , cardano,polkadot "), strings(&["bitcoin", "cardano", "polkadot"]));
    assert_eq!(parse_token_line(""), strings(&[""]));
}

#[test]
fn tokens_from_lines_keeps_the_last_line() {
    let lines = strings(&["bitcoin,cardano", "ethereum, solana"]);
    assert_eq!(tokens_from_lines(&lines), strings(&["ethereum", "solana"]));
    assert_eq!(tokens_from_lines(&strings(&[])), strings(&[]));
}

#[test]
fn saved_list_reads_back() {
    let consulta = ConsultaCrypto { crypto_list: strings(&["bitcoin", "polkadot", "cardano"]) };
    let text = consulta.to_file_text();
    assert_eq!(text, "bitcoin,polkadot,cardano");
    assert_eq!(tokens_from_lines(&vec![text]), consulta.crypto_list);
    let empty = ConsultaCrypto { crypto_list: vec![] };
    assert_eq!(empty.to_file_text(), "");
    assert_eq!(tokens_from_lines(&vec![]), empty.crypto_list);
}

#[test]
fn tokens_to_delete_takes_unfollowed_tokens() {
    let consulta = ConsultaCrypto { crypto_list: strings(&["bitcoin", "cardano"]) };
    let existing = strings(&["bitcoin", "dogecoin", "cardano", "tether"]);
    assert_eq!(tokens_to_delete(&existing, &consulta), strings(&["dogecoin", "tether"]));
    assert_eq!(tokens_to_delete(&strings(&[]), &consulta), strings(&[]));
}

#[test]
fn tokens_to_register_adds_new_trimmed_names_once() {
    let consulta = ConsultaCrypto { crypto_list: strings(&[" bitcoin", "cardano ", "cardano", "solana"]) };
    let existing = strings(&["bitcoin"]);
    let plan = tokens_to_register(&consulta, &existing);
    assert_eq!(plan, strings(&["cardano", "solana"]));
    let mut after = existing.clone();
    after.extend(plan);
    assert_eq!(tokens_to_register(&consulta, &after), strings(&[]));
}

#[test]
fn concat_vector_to_string_joins_ids() {
    assert_eq!(
        concat_vector_to_string(vec!["bitcoin", "cardano"], "vs_currency=usd&ids="),
        "vs_currency=usd&ids=bitcoin%2Ccardano"
    );
    assert_eq!(concat_vector_to_string(vec!["bitcoin"], "x="), "x=bitcoin");
}

#[test]
fn concat_url_builds_coingecko_addresses() {
    assert_eq!(
        concat_url("all", vec!["bitcoin"], "KEY"),
        "https://api.coingecko.com/api/v3/coins/markets?vs_currency=usd&ids=bitcoin&x_cg_demo_api_key=KEY"
    );
    assert_eq!(
        concat_url("price", vec!["bitcoin", "cardano"], "KEY"),
        "https://api.coingecko.com/api/v3/simple/price?vs_currency=usd&ids=bitcoin%2Ccardano&x_cg_demo_api_key=KEY"
    );
    assert_eq!(concat_url("other", vec!["bitcoin"], "KEY"), "Caso no reconocido: other");
}

#[test]
fn request_addresses() {
    assert_eq!(coin_data_url("bitcoin"), "https://api.coingecko.com/api/v3/coins/bitcoin");
    assert_eq!(
        simple_price_url("bitcoin"),
        "https://api.coingecko.com/api/v3/simple/price?ids=bitcoin&vs_currencies=usd"
    );
    assert_eq!(
        market_chart_url("bitcoin"),
        "https://api.coingecko.com/api/v3/coins/bitcoin/market_chart?vs_currency=usd&days=30"
    );
    assert_eq!(tradingview_price_url("BTC"), "https://api.tradingview.com/api/v1/price?symbol=BTC");
}

#[test]
fn price_sources_follow_the_configuration() {
    assert_eq!(price_sources("coingecko"), vec![PriceSource::CoinGecko]);
    assert_eq!(price_sources("tradingview"), vec![PriceSource::TradingView]);
    assert_eq!(price_sources("binance"), vec![]);
}

#[test]
fn interval_falls_back_to_120() {
    assert_eq!(interval_or_default(""), "120");
    assert_eq!(interval_or_default("  \t"), "120");
    assert_eq!(interval_or_default(" 60"), " 60");
    assert_eq!(parse_u64(&interval_or_default("   ")), Some(120));
}

#[test]
fn parse_u64_reads_like_std() {
    for s in ["0", "120", "+7", "", "+", "-1", " 60", "12a", "18446744073709551615", "18446744073709551616", "99999999999999999999"] {
        assert_eq!(parse_u64(s), s.parse::<u64>().ok(), "input {:?}", s);
    }
}

#[test]
fn vec_list_crypto_defaults() {
    assert_eq!(my_vec_list_crypto(Some(vec![])), strings(&["bitcoin", "polkadot", "cardano", "ethereum"]));
    assert_eq!(my_vec_list_crypto(Some(strings(&["solana"]))), strings(&["solana"]));
    assert_eq!(my_vec_list_crypto(None), strings(&[]));
}

#[test]
fn query_names_are_checked() {
    assert!(matches!(validate_query_name("Consulta"), NameCheck::Valid));
    match validate_query_name("consulta") {
        NameCheck::Invalid(m) => assert_eq!(m, "Nombre debe empezar con Mayuscula"),
        NameCheck::Valid => panic!("lower-case name accepted"),
    }
    match validate_query_name("Abcdefghijklmnopqrst") {
        NameCheck::Invalid(m) => assert_eq!(m, "Nombre muy largo , solo puede usar 20 caracteres"),
        NameCheck::Valid => panic!("long name accepted"),
    }
    // 'Ł' is U+0141, whose low byte is 0x41 ('A').
    assert!(matches!(validate_query_name("Łódź"), NameCheck::Valid));
}

#[test]
fn data_lines_split_into_timestamp_and_price() {
    assert_eq!(split_data_line(" 1.000\t2.500 "), Ok(("1.000".to_string(), "2.500".to_string())));
    assert_eq!(split_data_line("   "), Err(DataLineError::MissingTimestamp));
    assert_eq!(split_data_line("1.0"), Err(DataLineError::MissingPrice));
    assert_eq!(DataLineError::MissingPrice.message(), "Missing price");
    assert_eq!(DataLineError::MissingTimestamp.message(), "Missing timestamp");
}

#[test]
fn prices_query_adds_interval_filter() {
    assert_eq!(prices_query(false), "SELECT id, price, timestamp, interval FROM prices WHERE token_id = ?1");
    assert_eq!(
        prices_query(true),
        "SELECT id, price, timestamp, interval FROM prices WHERE token_id = ?1 AND interval = ?2"
    );
}

#[test]
fn timer_intervals() {
    assert_eq!(TOKEN_REGISTRY_INTERVAL_SECS, 600);
    assert_eq!(TOKEN_INFO_INTERVAL_SECS, 300);
}

#[test]
fn info_timer_actions_and_reports() {
    assert!(matches!(info_token_action("bitcoin", CoinFetch::Listed(1)), InfoAction::UpdateFromFirst));
    match info_token_action("bitcoin", CoinFetch::Listed(0)) {
        InfoAction::Report(m) => assert_eq!(m, "Simbolo vacio de datos para el token BITCOIN: empty"),
        InfoAction::UpdateFromFirst => panic!("empty answer stored"),
    }
    match info_token_action("cardano", CoinFetch::Failed("timeout".to_string())) {
        InfoAction::Report(m) => assert_eq!(m, "Error al obtener datos de CoinGecko para el token CARDANO: timeout"),
        InfoAction::UpdateFromFirst => panic!("failed answer stored"),
    }
    assert_eq!(
        info_update_error_message("eth", "locked"),
        "Error al actualizar la base de datos para el token ETH: locked"
    );
    assert_eq!(tokens_read_error_message("boom"), "Error al obtener tokens de la base de datos : boom");
}

#[test]
fn new_app_selects_the_first_token() {
    let app = App::new(strings(&["bitcoin", "cardano"]));
    assert_eq!(app.selected_item, "bitcoin");
    assert_eq!(app.list_state, Some(0));
    assert_eq!(app.selected_index, 0);
    assert_eq!(app.intervalo_consulta_item, 0);
    assert_eq!(app.messages, " ");
}

#[test]
fn moves_stay_in_the_list_and_undo_each_other() {
    let mut app = App::new(strings(&["a", "b", "c"]));
    app.move_up();
    assert_eq!(app.list_state, Some(0));
    assert_eq!(app.selected_item, "a");
    app.move_down();
    assert_eq!(app.list_state, Some(1));
    assert_eq!(app.selected_item, "b");
    app.move_down();
    app.move_down();
    assert_eq!(app.list_state, Some(2));
    assert_eq!(app.selected_item, "c");
    app.move_up();
    assert_eq!(app.list_state, Some(1));
    assert_eq!(app.selected_item, "b");
    app.move_down();
    app.move_up();
    assert_eq!(app.list_state, Some(1));
    assert_eq!(app.selected_item, "b");
}

#[test]
fn list_state_can_be_changed_in_place() {
    let mut app = App::new(strings(&["a", "b"]));
    *app.list_state() = None;
    assert_eq!(app.list_state, None);
    app.move_down();
    assert_eq!(app.selected_item, "a");
}

#[test]
fn add_message_paints_yellow() {
    let mut app = App::new(strings(&["a"]));
    app.add_message("hola".to_string());
    assert_eq!(app.messages, format!("\u{1b}[33mhola{}", RESET));
}

#[test]
fn keys_drive_the_interface() {
    let mut app = App::new(strings(&["a", "b"]));
    assert!(matches!(app.handle_key(KeyInput::Down), KeyAction::Redraw));
    assert_eq!(app.selected_item, "b");
    match app.handle_key(KeyInput::Right) {
        KeyAction::LoadSelected(t) => assert_eq!(t, "b"),
        _ => panic!("right arrow did not load"),
    }
    assert!(matches!(app.handle_key(KeyInput::Up), KeyAction::Redraw));
    assert_eq!(app.selected_item, "a");
    assert!(matches!(app.handle_key(KeyInput::Char('x')), KeyAction::Redraw));
    assert!(matches!(app.handle_key(KeyInput::Char('q')), KeyAction::Quit));
    assert!(matches!(app.handle_key(KeyInput::Esc), KeyAction::Quit));
    assert!(matches!(app.handle_key(KeyInput::Other), KeyAction::Redraw));
}

#[test]
fn lookups_are_reported() {
    let mut app = App::new(strings(&["a"]));
    app.record_lookup("bitcoin", LookupOutcome::Found);
    assert_eq!(
        app.messages,
        format!("\u{1b}[33mDatos cargados para: \u{1b}[32mbitcoin{}{}", RESET, RESET)
    );
    app.record_lookup("bitcoin", LookupOutcome::Missing);
    assert_eq!(app.messages, format!("\u{1b}[33mNo hay datos para: \u{1b}[31mbitcoin{}{}", RESET, RESET));
    app.record_lookup("bitcoin", LookupOutcome::Failed("no such table".to_string()));
    assert_eq!(
        app.messages,
        format!("\u{1b}[33mError al cargar datos: \u{1b}[31mno such table{}{}", RESET, RESET)
    );
}

#[test]
fn stored_timestamps_are_read_and_written() {
    assert_eq!(timestamp_seconds("2015-05-15 00:00:00"), Some(1431648000));
    assert_eq!(timestamp_seconds("2015-05-15"), None);
    assert_eq!(utc_timestamp_text(1431648000), Some("2015-05-15 00:00:00 UTC".to_string()));
    assert_eq!(utc_timestamp_text(i64::MAX), None);
    assert_eq!(utc_date_label(1431648000, false), Some("2015-05-15".to_string()));
    assert_eq!(utc_date_label(1431648000, true), Some("15-05-15".to_string()));
}

#[test]
fn stored_stamps_read_back() {
    assert_eq!(stored_timestamp_text(1431648000), Some("2015-05-15 00:00:00".to_string()));
    assert_eq!(stored_timestamp_text(1431651723), Some("2015-05-15 01:02:03".to_string()));
    assert_eq!(timestamp_seconds(&stored_timestamp_text(1431651723).unwrap()), Some(1431651723));
    assert_eq!(stored_timestamp_text(i64::MAX), None);
}

#[test]
fn unrepresentable_rows_are_dropped() {
    assert_eq!(representable_rows(&vec![0, i64::MAX, 1431648000, i64::MIN]), vec![0, 2]);
    assert_eq!(representable_rows(&vec![]), Vec::<usize>::new());
}
