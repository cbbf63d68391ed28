use hack_scraper::fetch::FetchOutcome;
use hack_scraper::pipeline::{headline_report, link_list, ranked_report, story_table};

const HEADER: &str = "<tr><td bgcolor=\"#ff6600\"><table border=\"0\" width=\"100%\"><tr>\n\
    <td style=\"width:18px\"><a href=\"https://news.example\"><img src=\"y18.svg\"></a></td>\n\
    <td style=\"line-height:12pt\"><span class=\"pagetop\">\
    <b class=\"hnname\"><a href=\"news\">News</a></b>\n\
    <a href=\"newest\">new</a> | <a href=\"front\">past</a></span></td>\n\
    <td style=\"text-align:right\"><span class=\"pagetop\">\
    <a href=\"login?goto=news\">login</a></span></td>\n\
    </tr></table></td></tr>\n";

fn entry(id: u32, rank: &str, title_cell: &str) -> String {
    format!(
        "<tr class=\"athing\" id=\"{id}\">\
         <td align=\"right\" valign=\"top\" class=\"title\"><span class=\"rank\">{rank}</span></td>\n\
         <td valign=\"top\" class=\"votelinks\"><center><a id=\"up_{id}\" href=\"vote?id={id}\">\
         <div class=\"votearrow\"></div></a></center></td>\n\
         <td class=\"title\"><span class=\"titleline\">{title_cell}</span></td></tr>\n\
         <tr><td colspan=\"2\"></td><td class=\"subtext\">\
         <span class=\"score\">10 points</span></td></tr>\n",
        id = id,
        rank = rank,
        title_cell = title_cell
    )
}

fn front() -> FetchOutcome {
    let first = "<a class=\"storylink\" href=\"https://a.example/post\">A first story</a>\
                 <span class=\"sitebit comhead\"> (<a href=\"from?site=a.example\">\
                 <span class=\"sitestr\">a.example</span></a>)</span>";
    let second = "<a class=\"storylink\" href=\"item?id=102\">Ask: a second story?</a>";
    let body = format!(
        "<html lang=\"en\" op=\"news\"><head><title>News</title></head><body><center>\n\
         <table id=\"hnmain\" border=\"0\" width=\"85%\">\n{}\
         <tr><td><table border=\"0\">\n{}{}</table></td></tr></table></center></body></html>\n",
        HEADER,
        entry(101, "1.", first),
        entry(102, "2.", second)
    );
    FetchOutcome::Response { status: 200, body }
}

#[test]
fn front_page_as_ranked_report() {
    assert_eq!(
        ranked_report(front()),
        Ok("1. | A first story\nhttps://a.example/post\n\n\
            2. | Ask: a second story?\nitem?id=102\n\n"
            .to_string())
    );
}

#[test]
fn front_page_as_table() {
    let table = story_table(front()).unwrap();
    let cells: Vec<String> = (0..table.len())
        .map(|i| table.get_row(i).unwrap().get_cell(0).unwrap().get_content())
        .collect();
    assert_eq!(
        cells,
        vec!["A first story", "https://a.example/post", "Ask: a second story?", "item?id=102"]
    );
}

#[test]
fn front_page_links() {
    assert_eq!(
        link_list(front()),
        Ok(vec![
            "https://news.example".to_string(),
            "news".to_string(),
            "newest".to_string(),
            "front".to_string(),
            "login?goto=news".to_string(),
            "vote?id=101".to_string(),
            "https://a.example/post".to_string(),
            "from?site=a.example".to_string(),
            "vote?id=102".to_string(),
            "item?id=102".to_string(),
        ])
    );
}

#[test]
fn front_page_headlines() {
    assert_eq!(
        headline_report(front()),
        Ok("A first story\nhttps://a.example/post\n\n\
            Ask: a second story?\nitem?id=102\n\n"
            .to_string())
    );
}
