use vstd::prelude::*;
use crate::score::{grade_text, grade_text_of, score_class, score_class_of};

verus! {

// The standalone HTML report. Measured values are shown as the caller
// formats them; the score, its class and label, and the bad-block count are
// filled in here.

/// Part 0 of the report template.
pub const HTML_PART_0: &'static str = "<!DOCTYPE html>\n<html lang=\"zh-CN\">\n<head>\n<meta charset=\"UTF-8\">\n<title>UDisk Inspector 检测报告 - ";

/// Part 1 of the report template.
pub const HTML_PART_1: &'static str = "</title>\n<script src=\"https://cdn.jsdelivr.net/npm/echarts@5/dist/echarts.min.js\"></script>\n<style>\n  body { font-family: -apple-system, BlinkMacSystemFont, 'Segoe UI', sans-serif; max-width: 900px; margin: 0 auto; padding: 20px; background: #f5f5f5; }\n  .header { background: linear-gradient(135deg, #667eea 0%, #764ba2 100%); color: white; padding: 30px; border-radius: 12px; margin-bottom: 20px; }\n  .header h1 { margin: 0 0 8px 0; font-size: 24px; }\n  .header p { margin: 0; opacity: 0.9; }\n  .card { background: white; border-radius: 12px; padding: 24px; margin-bottom: 16px; box-shadow: 0 2px 8px rgba(0,0,0,0.08); }\n  .card h2 { margin-top: 0; color: #333; font-size: 18px; border-bottom: 2px solid #eee; padding-bottom: 8px; }\n  .score { font-size: 64px; font-weight: bold; text-align: center; }\n  .score.excellent { color: #22c55e; }\n  .score.good { color: #3b82f6; }\n  .score.fair { color: #eab308; }\n  .score.poor { color: #ef4444; }\n  .stat-grid { display: grid; grid-template-columns: repeat(auto-fit, minmax(200px, 1fr)); gap: 16px; }\n  .stat { text-align: center; padding: 16px; background: #f8fafc; border-radius: 8px; }\n  .stat-value { font-size: 28px; font-weight: bold; color: #1e40af; }\n  .stat-label { font-size: 14px; color: #64748b; margin-top: 4px; }\n  .chart { width: 100%; height: 300px; }\n  .grade-badge { display: inline-block; padding: 4px 12px; border-radius: 20px; font-size: 14px; font-weight: 600; }\n  .grade-excellent { background: #dcfce7; color: #166534; }\n  .grade-good { background: #dbeafe; color: #1e40af; }\n  .grade-fair { background: #fef3c7; color: #92400e; }\n  .grade-poor { background: #fee2e2; color: #991b1b; }\n</style>\n</head>\n<body>\n<div class=\"header\">\n  <h1>U盘质量检测报告</h1>\n  <p>";

/// Part 2 of the report template.
pub const HTML_PART_2: &'static str = " | 检测日期: ";

/// Part 3 of the report template.
pub const HTML_PART_3: &'static str = "</p>\n</div>\n\n<div class=\"card\">\n  <h2>综合评分</h2>\n  <div class=\"score ";

/// Part 4 of the report template.
pub const HTML_PART_4: &'static str = "\">";

/// Part 5 of the report template.
pub const HTML_PART_5: &'static str = "<span style=\"font-size:24px\">/100</span></div>\n  <div style=\"text-align:center\"><span class=\"grade-badge grade-";

/// Part 6 of the report template.
pub const HTML_PART_6: &'static str = "\">";

/// Part 7 of the report template.
pub const HTML_PART_7: &'static str = "</span></div>\n</div>\n\n<div class=\"card\">\n  <h2>检测数据</h2>\n  <div class=\"stat-grid\">\n    <div class=\"stat\">\n      <div class=\"stat-value\">";

/// Part 8 of the report template.
pub const HTML_PART_8: &'static str = " GB</div>\n      <div class=\"stat-label\">标称容量</div>\n    </div>\n    <div class=\"stat\">\n      <div class=\"stat-value\">";

/// Part 9 of the report template.
pub const HTML_PART_9: &'static str = "</div>\n      <div class=\"stat-label\">真实容量</div>\n    </div>\n    <div class=\"stat\">\n      <div class=\"stat-value\">";

/// Part 10 of the report template.
pub const HTML_PART_10: &'static str = "</div>\n      <div class=\"stat-label\">顺序读取</div>\n    </div>\n    <div class=\"stat\">\n      <div class=\"stat-value\">";

/// Part 11 of the report template.
pub const HTML_PART_11: &'static str = "</div>\n      <div class=\"stat-label\">顺序写入</div>\n    </div>\n    <div class=\"stat\">\n      <div class=\"stat-value\">";

/// Part 12 of the report template.
pub const HTML_PART_12: &'static str = "</div>\n      <div class=\"stat-label\">随机读取 IOPS</div>\n    </div>\n    <div class=\"stat\">\n      <div class=\"stat-value\">";

/// Part 13 of the report template.
pub const HTML_PART_13: &'static str = "</div>\n      <div class=\"stat-label\">随机写入 IOPS</div>\n    </div>\n    <div class=\"stat\">\n      <div class=\"stat-value\">";

/// Part 14 of the report template.
pub const HTML_PART_14: &'static str = "</div>\n      <div class=\"stat-label\">速度稳定性</div>\n    </div>\n    <div class=\"stat\">\n      <div class=\"stat-value\">";

/// Part 15 of the report template.
pub const HTML_PART_15: &'static str = "</div>\n      <div class=\"stat-label\">坏块数量</div>\n    </div>\n  </div>\n</div>\n\n<div class=\"card\">\n  <h2>读写速度曲线</h2>\n  <div id=\"speedChart\" class=\"chart\"></div>\n</div>\n\n<div class=\"card\">\n  <h2>坏块分布</h2>\n  <div id=\"badBlockChart\" class=\"chart\"></div>\n</div>\n\n<script>\nvar speedData = ";

/// Part 16 of the report template.
pub const HTML_PART_16: &'static str = ";\nif (speedData && speedData.length > 0) {\n  var chart = echarts.init(document.getElementById('speedChart'));\n  chart.setOption({\n    tooltip: { trigger: 'axis' },\n    legend: { data: ['写入速度', '读取速度'] },\n    xAxis: { type: 'category', data: speedData.map(s => s.offset_mb + ' MB'), name: '偏移量' },\n    yAxis: { type: 'value', name: 'MB/s' },\n    series: [\n      { name: '写入速度', type: 'line', data: speedData.map(s => s.write_speed), smooth: true, itemStyle: { color: '#ef4444' } },\n      { name: '读取速度', type: 'line', data: speedData.map(s => s.read_speed), smooth: true, itemStyle: { color: '#3b82f6' } }\n    ]\n  });\n}\n\nvar badData = ";

/// Part 17 of the report template.
pub const HTML_PART_17: &'static str = ";\nif (badData && badData.length > 0) {\n  var chart2 = echarts.init(document.getElementById('badBlockChart'));\n  var heatData = badData.map((pos, i) => [pos % 100, Math.floor(pos / 100), 1]);\n  chart2.setOption({\n    tooltip: {},\n    xAxis: { type: 'category', splitArea: { show: true } },\n    yAxis: { type: 'category', splitArea: { show: true } },\n    visualMap: { min: 0, max: 1, calculable: false, orient: 'horizontal', left: 'center', bottom: 0, inRange: { color: ['#22c55e', '#ef4444'] } },\n    series: [{ type: 'heatmap', data: heatData, label: { show: false } }]\n  });\n} else {\n  document.getElementById('badBlockChart').innerHTML = '<p style=\"text-align:center;color:#22c55e;font-size:18px;padding:40px\">未发现坏块</p>';\n}\n</script>\n<div style=\"text-align:center;color:#94a3b8;font-size:12px;margin-top:20px\">\n  Generated by UDisk Inspector | ";

/// Part 18 of the report template.
pub const HTML_PART_18: &'static str = "\n</div>\n</body>\n</html>";

/// The characters `0` to `9`.
pub const DIGITS: &'static str = "0123456789";

/// The decimal representation of `n`.
pub open spec fn decimal(n: nat) -> Seq<char>
    decreases n,
{
    if n < 10 {
        seq![DIGITS@[n as int]]
    } else {
        decimal(n / 10).push(DIGITS@[(n % 10) as int])
    }
}

/// A shown value, or the placeholder for a value that was not measured.
pub open spec fn or_text(o: Option<Seq<char>>, missing: Seq<char>) -> Seq<char> {
    match o {
        Some(s) => s,
        None => missing,
    }
}

/// The contents of an optional text.
pub open spec fn opt_text(o: Option<&str>) -> Option<Seq<char>> {
    match o {
        Some(s) => Some(s@),
        None => None,
    }
}

/// The text of the HTML report.
pub open spec fn html_report(
    drive_name: Seq<char>,
    test_date: Seq<char>,
    claimed_gb: Seq<char>,
    real_gb: Option<Seq<char>>,
    seq_read: Option<Seq<char>>,
    seq_write: Option<Seq<char>>,
    rand_read: Option<Seq<char>>,
    rand_write: Option<Seq<char>>,
    stability: Option<Seq<char>>,
    bad_blocks: u64,
    total_score: u32,
    speed_samples_json: Seq<char>,
    bad_block_positions_json: Seq<char>,
) -> Seq<char> {
    HTML_PART_0@
        + drive_name
        + HTML_PART_1@
        + drive_name
        + HTML_PART_2@
        + test_date
        + HTML_PART_3@
        + score_class_of(total_score)
        + HTML_PART_4@
        + decimal(total_score as nat)
        + HTML_PART_5@
        + score_class_of(total_score)
        + HTML_PART_6@
        + grade_text_of(total_score)
        + HTML_PART_7@
        + claimed_gb
        + HTML_PART_8@
        + or_text(real_gb, "未测试"@)
        + HTML_PART_9@
        + or_text(seq_read, "N/A"@)
        + HTML_PART_10@
        + or_text(seq_write, "N/A"@)
        + HTML_PART_11@
        + or_text(rand_read, "N/A"@)
        + HTML_PART_12@
        + or_text(rand_write, "N/A"@)
        + HTML_PART_13@
        + or_text(stability, "N/A"@)
        + HTML_PART_14@
        + decimal(bad_blocks as nat)
        + HTML_PART_15@
        + speed_samples_json
        + HTML_PART_16@
        + bad_block_positions_json
        + HTML_PART_17@
        + test_date
        + HTML_PART_18@
}

/// Whether `pat` occurs in `text` as a contiguous piece.
pub open spec fn occurs_in(pat: Seq<char>, text: Seq<char>) -> bool {
    exists|k: int|
        0 <= k && k + pat.len() <= text.len() && #[trigger] text.subrange(k, k + pat.len()) == pat
}

/// Concatenation can be regrouped.
pub broadcast proof fn lemma_concat_regroup(a: Seq<char>, b: Seq<char>, c: Seq<char>)
    ensures
        #[trigger] ((a + b) + c) == a + (b + c),
{
    assert((a + b) + c =~= a + (b + c));
}

/// A piece occurs in any text made of something, the piece, and something.
pub proof fn lemma_occurs_between(a: Seq<char>, p: Seq<char>, b: Seq<char>)
    ensures
        occurs_in(p, a + p + b),
{
    let t = a + p + b;
    assert(t.subrange(a.len() as int, (a.len() + p.len()) as int) =~= p);
}

/// Each card of the report shows its own value right before its label: the
/// real capacity (or 未测试) before the real-capacity label, the sequential
/// read and write speeds, the random read and write IOPS, the stability (or
/// N/A for each value not measured) before theirs, and the number of bad
/// blocks before the bad-block label.
pub proof fn law_report_cards_show_their_values(
    drive_name: Seq<char>,
    test_date: Seq<char>,
    claimed_gb: Seq<char>,
    real_gb: Option<Seq<char>>,
    seq_read: Option<Seq<char>>,
    seq_write: Option<Seq<char>>,
    rand_read: Option<Seq<char>>,
    rand_write: Option<Seq<char>>,
    stability: Option<Seq<char>>,
    bad_blocks: u64,
    total_score: u32,
    speed_samples_json: Seq<char>,
    bad_block_positions_json: Seq<char>,
)
    ensures
        ({
            let html = html_report(
                drive_name,
                test_date,
                claimed_gb,
                real_gb,
                seq_read,
                seq_write,
                rand_read,
                rand_write,
                stability,
                bad_blocks,
                total_score,
                speed_samples_json,
                bad_block_positions_json,
            );
            &&& occurs_in(HTML_PART_7@ + claimed_gb + HTML_PART_8@, html)
            &&& occurs_in(HTML_PART_8@ + or_text(real_gb, "未测试"@) + HTML_PART_9@, html)
            &&& occurs_in(HTML_PART_9@ + or_text(seq_read, "N/A"@) + HTML_PART_10@, html)
            &&& occurs_in(HTML_PART_10@ + or_text(seq_write, "N/A"@) + HTML_PART_11@, html)
            &&& occurs_in(HTML_PART_11@ + or_text(rand_read, "N/A"@) + HTML_PART_12@, html)
            &&& occurs_in(HTML_PART_12@ + or_text(rand_write, "N/A"@) + HTML_PART_13@, html)
            &&& occurs_in(HTML_PART_13@ + or_text(stability, "N/A"@) + HTML_PART_14@, html)
            &&& occurs_in(HTML_PART_14@ + decimal(bad_blocks as nat) + HTML_PART_15@, html)
        }),
{
    broadcast use lemma_concat_regroup;
    let html = html_report(
        drive_name,
        test_date,
        claimed_gb,
        real_gb,
        seq_read,
        seq_write,
        rand_read,
        rand_write,
        stability,
        bad_blocks,
        total_score,
        speed_samples_json,
        bad_block_positions_json,
    );
    let head = HTML_PART_0@ + drive_name + HTML_PART_1@ + drive_name + HTML_PART_2@ + test_date
        + HTML_PART_3@ + score_class_of(total_score) + HTML_PART_4@ + decimal(total_score as nat)
        + HTML_PART_5@ + score_class_of(total_score) + HTML_PART_6@ + grade_text_of(total_score);
    let tail = speed_samples_json + HTML_PART_16@ + bad_block_positions_json + HTML_PART_17@
        + test_date + HTML_PART_18@;
    let (p7, p8, p9) = (HTML_PART_7@, HTML_PART_8@, HTML_PART_9@);
    let (p10, p11, p12) = (HTML_PART_10@, HTML_PART_11@, HTML_PART_12@);
    let (p13, p14, p15) = (HTML_PART_13@, HTML_PART_14@, HTML_PART_15@);
    let c = claimed_gb;
    let r = or_text(real_gb, "未测试"@);
    let sr = or_text(seq_read, "N/A"@);
    let sw = or_text(seq_write, "N/A"@);
    let rr = or_text(rand_read, "N/A"@);
    let rw = or_text(rand_write, "N/A"@);
    let st = or_text(stability, "N/A"@);
    let bb = decimal(bad_blocks as nat);
    assert(html == head + p7 + c + p8 + r + p9 + sr + p10 + sw + p11 + rr + p12 + rw + p13 + st
        + p14 + bb + p15 + tail);
    lemma_occurs_between(
        head,
        p7 + c + p8,
        r + p9 + sr + p10 + sw + p11 + rr + p12 + rw + p13 + st + p14 + bb + p15 + tail,
    );
    lemma_occurs_between(
        head + p7 + c,
        p8 + r + p9,
        sr + p10 + sw + p11 + rr + p12 + rw + p13 + st + p14 + bb + p15 + tail,
    );
    lemma_occurs_between(
        head + p7 + c + p8 + r,
        p9 + sr + p10,
        sw + p11 + rr + p12 + rw + p13 + st + p14 + bb + p15 + tail,
    );
    lemma_occurs_between(
        head + p7 + c + p8 + r + p9 + sr,
        p10 + sw + p11,
        rr + p12 + rw + p13 + st + p14 + bb + p15 + tail,
    );
    lemma_occurs_between(
        head + p7 + c + p8 + r + p9 + sr + p10 + sw,
        p11 + rr + p12,
        rw + p13 + st + p14 + bb + p15 + tail,
    );
    lemma_occurs_between(
        head + p7 + c + p8 + r + p9 + sr + p10 + sw + p11 + rr,
        p12 + rw + p13,
        st + p14 + bb + p15 + tail,
    );
    lemma_occurs_between(
        head + p7 + c + p8 + r + p9 + sr + p10 + sw + p11 + rr + p12 + rw,
        p13 + st + p14,
        bb + p15 + tail,
    );
    lemma_occurs_between(
        head + p7 + c + p8 + r + p9 + sr + p10 + sw + p11 + rr + p12 + rw + p13 + st,
        p14 + bb + p15,
        tail,
    );
}

/// Appends the decimal representation of `n`.
fn push_decimal(s: &mut String, n: u64)
    ensures
        final(s)@ == old(s)@ + decimal(n as nat),
    decreases n,
{
    proof {
        reveal_strlit("0123456789");
    }
    if n >= 10 {
        push_decimal(s, n / 10);
    }
    let d = (n % 10) as usize;
    s.append(DIGITS.substring_char(d, d + 1));
    assert(DIGITS@.subrange(d as int, d + 1) =~= seq![DIGITS@[d as int]]);
    assert(old(s)@ + decimal(n as nat) =~= old(s)@ + (if n < 10 {
        Seq::<char>::empty()
    } else {
        decimal((n / 10) as nat)
    }) + seq![DIGITS@[d as int]]);
}

/// The decimal representation of `n`.
pub fn decimal_string(n: u64) -> (s: String)
    ensures
        s@ == decimal(n as nat),
{
    let mut s = String::new();
    push_decimal(&mut s, n);
    assert(s@ =~= decimal(n as nat));
    s
}

/// The shown value, or `missing` when there is none.
fn shown<'a>(o: Option<&'a str>, missing: &'a str) -> (r: &'a str)
    ensures
        r@ == or_text(opt_text(o), missing@),
{
    match o {
        Some(s) => s,
        None => missing,
    }
}

/// Builds the standalone HTML report of a test. The measured values come
/// formatted for display (`None` when not measured: the real capacity then
/// shows as 未测试, the others as N/A); the score's CSS class and grade label
/// follow the total score.
pub fn generate_html_report(
    drive_name: &str,
    test_date: &str,
    claimed_gb: &str,
    real_gb: Option<&str>,
    seq_read: Option<&str>,
    seq_write: Option<&str>,
    rand_read: Option<&str>,
    rand_write: Option<&str>,
    stability: Option<&str>,
    bad_blocks: u64,
    total_score: u32,
    speed_samples_json: &str,
    bad_block_positions_json: &str,
) -> (html: String)
    ensures
        html@ == html_report(
            drive_name@,
            test_date@,
            claimed_gb@,
            opt_text(real_gb),
            opt_text(seq_read),
            opt_text(seq_write),
            opt_text(rand_read),
            opt_text(rand_write),
            opt_text(stability),
            bad_blocks,
            total_score,
            speed_samples_json@,
            bad_block_positions_json@,
        ),
{
    let class = score_class(total_score);
    let grade = grade_text(total_score);
    let real_text = shown(real_gb, "未测试");
    let read = shown(seq_read, "N/A");
    let write = shown(seq_write, "N/A");
    let rread = shown(rand_read, "N/A");
    let rwrite = shown(rand_write, "N/A");
    let stab = shown(stability, "N/A");
    let mut html = String::new();
    html.append(HTML_PART_0);
    html.append(drive_name);
    html.append(HTML_PART_1);
    html.append(drive_name);
    html.append(HTML_PART_2);
    html.append(test_date);
    html.append(HTML_PART_3);
    html.append(class);
    html.append(HTML_PART_4);
    push_decimal(&mut html, total_score as u64);
    html.append(HTML_PART_5);
    html.append(class);
    html.append(HTML_PART_6);
    html.append(grade);
    html.append(HTML_PART_7);
    html.append(claimed_gb);
    html.append(HTML_PART_8);
    html.append(real_text);
    html.append(HTML_PART_9);
    html.append(read);
    html.append(HTML_PART_10);
    html.append(write);
    html.append(HTML_PART_11);
    html.append(rread);
    html.append(HTML_PART_12);
    html.append(rwrite);
    html.append(HTML_PART_13);
    html.append(stab);
    html.append(HTML_PART_14);
    push_decimal(&mut html, bad_blocks);
    html.append(HTML_PART_15);
    html.append(speed_samples_json);
    html.append(HTML_PART_16);
    html.append(bad_block_positions_json);
    html.append(HTML_PART_17);
    html.append(test_date);
    html.append(HTML_PART_18);
    assert(html@ =~= html_report(
        drive_name@,
        test_date@,
        claimed_gb@,
        opt_text(real_gb),
        opt_text(seq_read),
        opt_text(seq_write),
        opt_text(rand_read),
        opt_text(rand_write),
        opt_text(stability),
        bad_blocks,
        total_score,
        speed_samples_json@,
        bad_block_positions_json@,
    ));
    html
}

} // verus!
