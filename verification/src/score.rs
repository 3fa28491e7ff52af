use vstd::prelude::*;

verus! {

/// Quality grade of a drive.
#[derive(Debug, Clone, Copy, PartialEq, Eq, Structural)]
pub enum Grade {
    Excellent,
    Good,
    Fair,
    Poor,
}

/// The 100-point quality score: capacity (35), speed (25), stability (15)
/// and bad blocks (25).
#[derive(Debug, Clone, Copy)]
pub struct QualityScore {
    pub total: u32,
    pub capacity_score: u32,
    pub speed_score: u32,
    pub stability_score: u32,
    pub badblock_score: u32,
    pub grade: Grade,
}

/// The grade of a total score.
pub open spec fn grade_of(total: u32) -> Grade {
    if 90 <= total <= 100 {
        Grade::Excellent
    } else if 70 <= total <= 89 {
        Grade::Good
    } else if 50 <= total <= 69 {
        Grade::Fair
    } else {
        Grade::Poor
    }
}

/// Rank of a grade, higher is better.
pub open spec fn grade_rank(g: Grade) -> int {
    match g {
        Grade::Excellent => 3,
        Grade::Good => 2,
        Grade::Fair => 1,
        Grade::Poor => 0,
    }
}

/// Points for the number of sharp speed drops.
pub open spec fn drop_points(drops: u32) -> u32 {
    if drops == 0 {
        5
    } else if drops <= 2 {
        3
    } else {
        0
    }
}

pub open spec fn min_u32(a: u32, b: u32) -> u32 {
    if a <= b { a } else { b }
}

/// The grade of a total score: 90-100 excellent, 70-89 good, 50-69 fair,
/// anything else poor.
pub fn grade_for_total(total: u32) -> (g: Grade)
    ensures
        g == grade_of(total),
{
    if 90 <= total && total <= 100 {
        Grade::Excellent
    } else if 70 <= total && total <= 89 {
        Grade::Good
    } else if 50 <= total && total <= 69 {
        Grade::Fair
    } else {
        Grade::Poor
    }
}

/// Points for the number of sharp speed drops: 5 for none, 3 for one or
/// two, 0 for more.
pub fn speed_drop_points(drops: u32) -> (p: u32)
    ensures
        p == drop_points(drops),
{
    if drops == 0 {
        5
    } else if drops <= 2 {
        3
    } else {
        0
    }
}

/// The stability part of the score. `stability_points` holds, when speed
/// stability was measured, the stability scaled to 10 and to 15 points.
/// With the number of speed drops known, the 10-point scale plus the drop
/// points counts; without it, the 15-point scale; either way capped at 15.
pub fn stability_score(stability_points: Option<(u32, u32)>, speed_drops: Option<u32>) -> (s: u32)
    requires
        stability_points matches Some((t, _)) ==> t <= u32::MAX - 5,
    ensures
        s == match (stability_points, speed_drops) {
            (Some((tenths, _)), Some(drops)) => min_u32((tenths + drop_points(drops)) as u32, 15),
            (Some((_, fifteenths)), None) => min_u32(fifteenths, 15),
            _ => 0,
        },
        s <= 15,
{
    match (stability_points, speed_drops) {
        (Some((tenths, _)), Some(drops)) => {
            let sum = tenths + speed_drop_points(drops);
            if sum <= 15 {
                sum
            } else {
                15
            }
        },
        (Some((_, fifteenths)), None) => {
            if fifteenths <= 15 {
                fifteenths
            } else {
                15
            }
        },
        _ => 0,
    }
}

/// The bad-block part of the score. A scan with no bad block earns all 25
/// points (also when the number of blocks is unknown); with bad blocks among
/// a known number of blocks, `partial_points` (from the bad-block ratio)
/// counts; without a scan, nothing.
pub fn badblock_score(bad_block_count: Option<u64>, total_blocks: Option<u64>, partial_points: u32) -> (s: u32)
    requires
        partial_points <= 25,
    ensures
        s == match (bad_block_count, total_blocks) {
            (Some(bad), Some(total)) if total > 0 => if bad == 0 {
                25
            } else {
                partial_points
            },
            (Some(bad), _) if bad == 0 => 25,
            _ => 0,
        },
        s <= 25,
{
    match (bad_block_count, total_blocks) {
        (Some(bad), Some(total)) if total > 0 => {
            if bad == 0 {
                25
            } else {
                partial_points
            }
        },
        (Some(bad), _) if bad == 0 => 25,
        _ => 0,
    }
}

/// Puts the parts of the score together: the speed part is the read plus the
/// write points, the total the sum of the parts, and the grade follows the
/// total.
pub fn assemble_score(
    capacity_score: u32,
    read_score: u32,
    write_score: u32,
    stability_score: u32,
    badblock_score: u32,
) -> (q: QualityScore)
    requires
        capacity_score <= 35,
        read_score <= 12,
        write_score <= 13,
        stability_score <= 15,
        badblock_score <= 25,
    ensures
        q.capacity_score == capacity_score,
        q.speed_score == read_score + write_score,
        q.stability_score == stability_score,
        q.badblock_score == badblock_score,
        q.total == q.capacity_score + q.speed_score + q.stability_score + q.badblock_score,
        q.total <= 100,
        q.grade == grade_of(q.total),
{
    let speed_score = read_score + write_score;
    let total = capacity_score + speed_score + stability_score + badblock_score;
    QualityScore {
        total,
        capacity_score,
        speed_score,
        stability_score,
        badblock_score,
        grade: grade_for_total(total),
    }
}

/// A higher total never earns a worse grade (within the 100-point range).
pub proof fn law_grade_monotone(a: u32, b: u32)
    requires
        a <= b <= 100,
    ensures
        grade_rank(grade_of(a)) <= grade_rank(grade_of(b)),
{
}

/// The CSS class of a total score in the HTML report.
pub open spec fn score_class_of(total: u32) -> Seq<char> {
    if total >= 90 {
        "excellent"@
    } else if total >= 70 {
        "good"@
    } else if total >= 50 {
        "fair"@
    } else {
        "poor"@
    }
}

/// The CSS class of a total score in the HTML report: 90 and above
/// excellent, 70 good, 50 fair, below poor.
pub fn score_class(total: u32) -> (c: &'static str)
    ensures
        c@ == score_class_of(total),
{
    if total >= 90 {
        "excellent"
    } else if total >= 70 {
        "good"
    } else if total >= 50 {
        "fair"
    } else {
        "poor"
    }
}

/// The grade label of a total score in the HTML report.
pub open spec fn grade_text_of(total: u32) -> Seq<char> {
    if total >= 90 {
        "优秀"@
    } else if total >= 70 {
        "良好"@
    } else if total >= 50 {
        "一般"@
    } else {
        "差"@
    }
}

/// The grade label of a total score in the HTML report, with the same
/// thresholds as its CSS class.
pub fn grade_text(total: u32) -> (t: &'static str)
    ensures
        t@ == grade_text_of(total),
{
    if total >= 90 {
        "优秀"
    } else if total >= 70 {
        "良好"
    } else if total >= 50 {
        "一般"
    } else {
        "差"
    }
}

/// The CSS class of the HTML report names the grade of the score, for every
/// total the score can reach.
pub proof fn law_report_class_matches_grade(total: u32)
    requires
        total <= 100,
    ensures
        score_class_of(total) == match grade_of(total) {
            Grade::Excellent => "excellent"@,
            Grade::Good => "good"@,
            Grade::Fair => "fair"@,
            Grade::Poor => "poor"@,
        },
{
}

/// The grade label of the HTML report names the grade of the score, for
/// every total the score can reach.
pub proof fn law_report_label_matches_grade(total: u32)
    requires
        total <= 100,
    ensures
        grade_text_of(total) == match grade_of(total) {
            Grade::Excellent => "优秀"@,
            Grade::Good => "良好"@,
            Grade::Fair => "一般"@,
            Grade::Poor => "差"@,
        },
{
}

} // verus!
