//! The addresses of the CoinGecko and TradingView requests.

use vstd::prelude::*;
use crate::text::{join, same_text};

verus! {

/// The character sequences that a list of string slices holds.
pub open spec fn slice_texts(v: Seq<&str>) -> Seq<Seq<char>> {
    v.map_values(|x: &str| x@)
}

/// `inicio` followed by the coin ids, separated by an URL-encoded comma.
pub open spec fn ids_query(ids: Seq<Seq<char>>, inicio: Seq<char>) -> Seq<char> {
    inicio + join(ids, "%2C"@)
}

/// The query of a CoinGecko request for the coins `ids`, priced in dollars.
pub open spec fn coins_query(ids: Seq<Seq<char>>) -> Seq<char> {
    ids_query(ids, "vs_currency=usd&ids="@)
}

/// The address that `concat_url` builds for the request kind `consulta`.
pub open spec fn coingecko_url(consulta: Seq<char>, ids: Seq<Seq<char>>, api_key: Seq<char>) -> Seq<char> {
    if consulta == "all"@ {
        "https://api.coingecko.com/api/v3/coins/markets?"@ + coins_query(ids) + "&x_cg_demo_api_key="@
            + api_key
    } else if consulta == "price"@ {
        "https://api.coingecko.com/api/v3/simple/price?"@ + coins_query(ids) + "&x_cg_demo_api_key="@
            + api_key
    } else {
        "Caso no reconocido: "@ + consulta
    }
}

/// Appends the coin ids to `inicio`, separated by an URL-encoded comma
/// (`%2C`). The list must not be empty.
pub fn concat_vector_to_string(vec: Vec<&str>, inicio: &str) -> (r: String)
    requires
        vec.len() > 0,
    ensures
        r@ == ids_query(slice_texts(vec@), inicio@),
{
    let mut resultado = String::from_str(inicio);
    let separador = "%2C";
    resultado.append(vec[0]);
    let n = vec.len();
    let mut i: usize = 1;
    assert(slice_texts(vec@).take(1) =~= seq![vec@[0]@]);
    while i < n
        invariant
            n == vec@.len(),
            1 <= i <= n,
            separador@ == "%2C"@,
            resultado@ == inicio@ + join(slice_texts(vec@).take(i as int), "%2C"@),
        decreases n - i,
    {
        assert(slice_texts(vec@).take(i as int + 1).drop_last() =~= slice_texts(vec@).take(i as int));
        resultado.append(separador);
        resultado.append(vec[i]);
        i = i + 1;
        assert(resultado@ =~= inicio@ + join(slice_texts(vec@).take(i as int), "%2C"@));
    }
    assert(slice_texts(vec@).take(n as int) =~= slice_texts(vec@));
    resultado
}

/// The CoinGecko address for the request kind `consulta`: `"all"` asks for
/// the market data of the coins, `"price"` for their simple prices; any
/// other kind gives a text that names the unknown kind. The coin list must
/// not be empty.
pub fn concat_url(consulta: &str, coin: Vec<&str>, api_key01: &str) -> (r: String)
    requires
        coin.len() > 0,
    ensures
        r@ == coingecko_url(consulta@, slice_texts(coin@), api_key01@),
{
    let inicio = "vs_currency=usd&ids=";
    let coin_str = concat_vector_to_string(coin, inicio);
    if same_text(consulta, "all") {
        let mut url = String::from_str("https://api.coingecko.com/api/v3/coins/markets?");
        url.append(coin_str.as_str());
        url.append("&x_cg_demo_api_key=");
        url.append(api_key01);
        url
    } else if same_text(consulta, "price") {
        let mut url = String::from_str("https://api.coingecko.com/api/v3/simple/price?");
        url.append(coin_str.as_str());
        url.append("&x_cg_demo_api_key=");
        url.append(api_key01);
        url
    } else {
        let mut url = String::from_str("Caso no reconocido: ");
        url.append(consulta);
        url
    }
}

/// The CoinGecko address of the full data of one coin.
pub fn coin_data_url(coin_id: &str) -> (r: String)
    ensures
        r@ == "https://api.coingecko.com/api/v3/coins/"@ + coin_id@,
{
    let mut url = String::from_str("https://api.coingecko.com/api/v3/coins/");
    url.append(coin_id);
    url
}

/// The CoinGecko address of the dollar price of one token.
pub fn simple_price_url(token: &str) -> (r: String)
    ensures
        r@ == "https://api.coingecko.com/api/v3/simple/price?ids="@ + token@ + "&vs_currencies=usd"@,
{
    let mut url = String::from_str("https://api.coingecko.com/api/v3/simple/price?ids=");
    url.append(token);
    url.append("&vs_currencies=usd");
    url
}

/// The CoinGecko address of the dollar prices of one token over the last
/// thirty days.
pub fn market_chart_url(token: &str) -> (r: String)
    ensures
        r@ == "https://api.coingecko.com/api/v3/coins/"@ + token@
            + "/market_chart?vs_currency=usd&days=30"@,
{
    let mut url = String::from_str("https://api.coingecko.com/api/v3/coins/");
    url.append(token);
    url.append("/market_chart?vs_currency=usd&days=30");
    url
}

/// The TradingView address of the price of one symbol.
pub fn tradingview_price_url(token: &str) -> (r: String)
    ensures
        r@ == "https://api.tradingview.com/api/v1/price?symbol="@ + token@,
{
    let mut url = String::from_str("https://api.tradingview.com/api/v1/price?symbol=");
    url.append(token);
    url
}

/// A service that prices can be fetched from.
#[derive(Debug, Clone, Copy, PartialEq, Eq, Structural)]
pub enum PriceSource {
    CoinGecko,
    TradingView,
}

/// The services that the configuration value `config` enables, in the order
/// in which they are queried: `"coingecko"` enables CoinGecko,
/// `"tradingview"` enables TradingView, and any other value none.
pub fn price_sources(config: &str) -> (r: Vec<PriceSource>)
    ensures
        r@ == (if config@ == "coingecko"@ {
            seq![PriceSource::CoinGecko]
        } else if config@ == "tradingview"@ {
            seq![PriceSource::TradingView]
        } else {
            Seq::<PriceSource>::empty()
        }),
{
    let mut sources: Vec<PriceSource> = Vec::new();
    if same_text(config, "coingecko") {
        sources.push(PriceSource::CoinGecko);
    }
    if same_text(config, "tradingview") {
        proof {
            reveal_strlit("coingecko");
            reveal_strlit("tradingview");
        }
        sources.push(PriceSource::TradingView);
    }
    proof {
        reveal_strlit("coingecko");
        reveal_strlit("tradingview");
        assert("coingecko"@ != "tradingview"@) by {
            assert("coingecko"@[0] != "tradingview"@[0]);
        }
    }
    sources
}


/// Adding a coin to the list adds `%2C` and its id at the end of the ids
/// query, and a single coin gives `inicio` followed by its id: the query
/// holds every id of the list, in order, separated by `%2C`.
pub proof fn lemma_ids_query_lists_every_id(ids: Seq<Seq<char>>, x: Seq<char>, inicio: Seq<char>)
    ensures
        ids_query(seq![x], inicio) == inicio + x,
        ids.len() > 0 ==> ids_query(ids.push(x), inicio) == ids_query(ids, inicio) + "%2C"@ + x,
{
    assert(seq![x].len() == 1);
    if ids.len() > 0 {
        assert(ids.push(x).drop_last() =~= ids);
        assert(ids.push(x).last() == x);
        assert(ids_query(ids.push(x), inicio) =~= ids_query(ids, inicio) + "%2C"@ + x);
    }
}

/// The market and the price addresses carry the same query, the dollar
/// ids query of the whole coin list followed by the key, after their own
/// endpoints; any other kind of request gives the text that names it.
pub proof fn lemma_coingecko_urls_share_the_ids_query(consulta: Seq<char>, ids: Seq<Seq<char>>, key: Seq<char>)
    ensures
        coingecko_url("all"@, ids, key) == "https://api.coingecko.com/api/v3/coins/markets?"@ + ids_query(
            ids,
            "vs_currency=usd&ids="@,
        ) + "&x_cg_demo_api_key="@ + key,
        coingecko_url("price"@, ids, key) == "https://api.coingecko.com/api/v3/simple/price?"@ + ids_query(
            ids,
            "vs_currency=usd&ids="@,
        ) + "&x_cg_demo_api_key="@ + key,
        (consulta != "all"@ && consulta != "price"@) ==> coingecko_url(consulta, ids, key)
            == "Caso no reconocido: "@ + consulta,
{
    reveal_strlit("all");
    reveal_strlit("price");
    assert("price"@ != "all"@) by {
        assert("price"@.len() != "all"@.len());
    }
}

} // verus!
