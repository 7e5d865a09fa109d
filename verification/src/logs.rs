//! Queries on the log table: the statements and values of a filtered,
//! paginated read, and the cut-off of a clean-up by age.

use vstd::prelude::*;
use vstd::string::StringExecFns;
use crate::text::{chars_of, join, joined, push_char, texts};

verus! {

/// Largest page that a query returns.
pub const MAX_PAGE_SIZE: u32 = 200;

/// Milliseconds in a day.
pub const MILLIS_PER_DAY: i64 = 86_400_000;

/// A value bound to a placeholder of a statement.
#[derive(Debug, PartialEq, Eq)]
pub enum SqlValue {
    Text(String),
    Integer(i64),
}

/// Mathematical value of a [`SqlValue`].
pub enum SqlValueView {
    Text(Seq<char>),
    Integer(i64),
}

impl View for SqlValue {
    type V = SqlValueView;

    open spec fn view(&self) -> SqlValueView {
        match self {
            SqlValue::Text(text) => SqlValueView::Text(text@),
            SqlValue::Integer(n) => SqlValueView::Integer(*n),
        }
    }
}

/// The values of a run of bound values.
pub open spec fn value_views(values: Seq<SqlValue>) -> Seq<SqlValueView> {
    values.map_values(|v: SqlValue| v@)
}

/// What a read of the log table is restricted to.
pub struct LogFilterView {
    /// Exact level.
    pub level: Option<Seq<char>>,
    /// Exact category.
    pub category: Option<Seq<char>>,
    /// Text that the message contains, taken literally.
    pub search: Option<Seq<char>>,
    /// Only entries later than this time.
    pub since: Option<i64>,
}

/// The page size in use: the one asked for, brought into 1 to 200.
pub open spec fn clamped_page_size(page_size: u32) -> u32 {
    if page_size < 1 {
        1
    } else if page_size > MAX_PAGE_SIZE {
        MAX_PAGE_SIZE
    } else {
        page_size
    }
}

/// The search text with a backslash before each backslash, percent sign
/// and underscore, so that `LIKE` takes every character literally.
pub open spec fn escape_like(text: Seq<char>) -> Seq<char>
    decreases text.len(),
{
    if text.len() == 0 {
        Seq::empty()
    } else {
        let c = text.last();
        if c == '\\' || c == '%' || c == '_' {
            escape_like(text.drop_last()).push('\\').push(c)
        } else {
            escape_like(text.drop_last()).push(c)
        }
    }
}

/// The `LIKE` pattern that matches the messages which contain the text.
pub open spec fn like_pattern(text: Seq<char>) -> Seq<char> {
    seq!['%'] + escape_like(text) + seq!['%']
}

/// The decimal digit for a number from 0 to 9.
pub open spec fn digit_char(n: nat) -> char {
    if n == 0 {
        '0'
    } else if n == 1 {
        '1'
    } else if n == 2 {
        '2'
    } else if n == 3 {
        '3'
    } else if n == 4 {
        '4'
    } else if n == 5 {
        '5'
    } else if n == 6 {
        '6'
    } else if n == 7 {
        '7'
    } else if n == 8 {
        '8'
    } else {
        '9'
    }
}

/// The placeholder with the given number, from 1 to 9.
pub open spec fn placeholder(n: nat) -> Seq<char> {
    seq!['?', digit_char(n)]
}

pub open spec fn one_if_some<T>(o: Option<T>) -> nat {
    if o is Some {
        1
    } else {
        0
    }
}

impl LogFilterView {
    /// Number of restrictions in force.
    pub open spec fn count(self) -> nat {
        one_if_some(self.level) + one_if_some(self.category) + one_if_some(self.search)
            + one_if_some(self.since)
    }

    /// The conditions of the `WHERE` clause, placeholders numbered from 1.
    pub open spec fn conditions(self) -> Seq<Seq<char>> {
        let n1 = 1 + one_if_some(self.level);
        let n2 = n1 + one_if_some(self.category);
        let n3 = n2 + one_if_some(self.search);
        (if self.level is Some {
            seq!["level = "@ + placeholder(1)]
        } else {
            Seq::empty()
        }) + (if self.category is Some {
            seq!["category = "@ + placeholder(n1)]
        } else {
            Seq::empty()
        }) + (if self.search is Some {
            seq!["message LIKE "@ + placeholder(n2) + " ESCAPE '\\'"@]
        } else {
            Seq::empty()
        }) + (if self.since is Some {
            seq!["timestamp > "@ + placeholder(n3)]
        } else {
            Seq::empty()
        })
    }

    /// The values bound to the placeholders of the conditions.
    pub open spec fn values(self) -> Seq<SqlValueView> {
        (match self.level {
            Some(level) => seq![SqlValueView::Text(level)],
            None => Seq::empty(),
        }) + (match self.category {
            Some(category) => seq![SqlValueView::Text(category)],
            None => Seq::empty(),
        }) + (match self.search {
            Some(search) => seq![SqlValueView::Text(like_pattern(search))],
            None => Seq::empty(),
        }) + (match self.since {
            Some(since) => seq![SqlValueView::Integer(since)],
            None => Seq::empty(),
        })
    }

    /// The `WHERE` clause: empty without a restriction.
    pub open spec fn where_clause(self) -> Seq<char> {
        if self.count() == 0 {
            Seq::empty()
        } else {
            "WHERE "@ + joined(self.conditions(), " AND "@)
        }
    }

    /// The statement that counts the matching entries.
    pub open spec fn count_sql(self) -> Seq<char> {
        "SELECT COUNT(*) FROM logs "@ + self.where_clause()
    }

    /// The statement that reads one page of the matching entries, newest first.
    pub open spec fn data_sql(self) -> Seq<char> {
        "SELECT id, timestamp, level, category, message, details FROM logs "@
            + self.where_clause() + " ORDER BY timestamp DESC, id DESC LIMIT "@ + placeholder(
            self.count() + 1,
        ) + " OFFSET "@ + placeholder(self.count() + 2)
    }
}

/// The two statements of a paginated read and the values bound to them.
#[derive(Debug, PartialEq, Eq)]
pub struct LogQuery {
    /// Counts the matching entries. Takes the first `filter_count` values.
    pub count_sql: String,
    /// Reads the page. Takes all the values.
    pub data_sql: String,
    /// The values of the restrictions, then the page size, then the offset.
    pub values: Vec<SqlValue>,
    /// Number of values that belong to the restrictions.
    pub filter_count: usize,
    /// The page asked for, counted from 0.
    pub page: u32,
    /// The page size in use.
    pub page_size: u32,
}

fn escape_for_like(text: &str) -> (out: String)
    ensures
        out@ == escape_like(text@),
{
    let chars = chars_of(text);
    let mut out = String::new();
    let mut i: usize = 0;
    proof {
        assert(chars@.take(0) =~= Seq::<char>::empty());
    }
    while i < chars.len()
        invariant
            i <= chars.len(),
            out@ == escape_like(chars@.take(i as int)),
        decreases chars.len() - i,
    {
        let c = chars[i];
        proof {
            assert(chars@.take(i + 1).drop_last() =~= chars@.take(i as int));
        }
        if c == '\\' || c == '%' || c == '_' {
            push_char(&mut out, '\\');
        }
        push_char(&mut out, c);
        i = i + 1;
    }
    proof {
        assert(chars@.take(chars@.len() as int) =~= chars@);
    }
    out
}

fn digit(n: u32) -> (c: char)
    requires
        n <= 9,
    ensures
        c == digit_char(n as nat),
{
    if n == 0 {
        '0'
    } else if n == 1 {
        '1'
    } else if n == 2 {
        '2'
    } else if n == 3 {
        '3'
    } else if n == 4 {
        '4'
    } else if n == 5 {
        '5'
    } else if n == 6 {
        '6'
    } else if n == 7 {
        '7'
    } else if n == 8 {
        '8'
    } else {
        '9'
    }
}

/// Appends the placeholder with number `n` to `sql`.
fn push_placeholder(sql: &mut String, n: u32)
    requires
        n <= 9,
    ensures
        final(sql)@ == old(sql)@ + placeholder(n as nat),
{
    push_char(sql, '?');
    push_char(sql, digit(n));
    proof {
        assert(final(sql)@ =~= old(sql)@ + placeholder(n as nat));
    }
}

/// `head`, the placeholder with number `n`, and `tail`.
fn condition(head: &str, n: u32, tail: &str) -> (out: String)
    requires
        n <= 9,
    ensures
        out@ == head@ + placeholder(n as nat) + tail@,
{
    let mut out = String::from_str(head);
    push_placeholder(&mut out, n);
    out.append(tail);
    out
}

/// Plans the read of page `page` of the log entries that pass the filter:
/// the page size is brought into 1 to 200, the search text is matched
/// literally, the entries come newest first, and the offset is `page` times
/// the page size in use.
pub fn log_query(
    page: u32,
    page_size: u32,
    level: Option<&str>,
    category: Option<&str>,
    search: Option<&str>,
    since: Option<i64>,
) -> (query: LogQuery)
    ensures
        query.page == page,
        query.page_size == clamped_page_size(page_size),
        query.count_sql@ == filter_of(level, category, search, since).count_sql(),
        query.data_sql@ == filter_of(level, category, search, since).data_sql(),
        query.filter_count == filter_of(level, category, search, since).count(),
        value_views(query.values@) == filter_of(level, category, search, since).values() + seq![
            SqlValueView::Integer(clamped_page_size(page_size) as i64),
            SqlValueView::Integer((page * clamped_page_size(page_size)) as i64),
        ],
{
    let ghost filter = filter_of(level, category, search, since);
    let size: u32 = if page_size < 1 {
        1
    } else if page_size > MAX_PAGE_SIZE {
        MAX_PAGE_SIZE
    } else {
        page_size
    };
    let mut conditions: Vec<String> = Vec::new();
    let mut values: Vec<SqlValue> = Vec::new();
    let mut next: u32 = 1;
    let ghost mut conds: Seq<Seq<char>> = Seq::empty();
    let ghost mut vals: Seq<SqlValueView> = Seq::empty();
    proof {
        assert(texts(conditions@) =~= conds);
        assert(value_views(values@) =~= vals);
    }
    match level {
        Some(l) => {
            let c = condition("level = ", next, "");
            proof {
                assert(c@ =~= "level = "@ + placeholder(1)) by {
                    assert(""@ =~= Seq::<char>::empty()) by {
                        reveal_strlit("");
                    }
                }
                conds = conds.push(c@);
                vals = vals.push(SqlValueView::Text(l@));
            }
            conditions.push(c);
            values.push(SqlValue::Text(String::from_str(l)));
            next = next + 1;
        },
        None => {},
    }
    proof {
        assert(texts(conditions@) =~= conds);
        assert(value_views(values@) =~= vals);
    }
    match category {
        Some(c) => {
            let text = condition("category = ", next, "");
            proof {
                assert(text@ =~= "category = "@ + placeholder(next as nat)) by {
                    assert(""@ =~= Seq::<char>::empty()) by {
                        reveal_strlit("");
                    }
                }
                conds = conds.push(text@);
                vals = vals.push(SqlValueView::Text(c@));
            }
            conditions.push(text);
            values.push(SqlValue::Text(String::from_str(c)));
            next = next + 1;
        },
        None => {},
    }
    proof {
        assert(texts(conditions@) =~= conds);
        assert(value_views(values@) =~= vals);
    }
    match search {
        Some(s) => {
            let text = condition("message LIKE ", next, " ESCAPE '\\'");
            let mut pattern = String::new();
            push_char(&mut pattern, '%');
            pattern.append(escape_for_like(s).as_str());
            push_char(&mut pattern, '%');
            proof {
                assert(pattern@ =~= like_pattern(s@));
                conds = conds.push(text@);
                vals = vals.push(SqlValueView::Text(pattern@));
            }
            conditions.push(text);
            values.push(SqlValue::Text(pattern));
            next = next + 1;
        },
        None => {},
    }
    proof {
        assert(texts(conditions@) =~= conds);
        assert(value_views(values@) =~= vals);
    }
    match since {
        Some(ts) => {
            let text = condition("timestamp > ", next, "");
            proof {
                assert(text@ =~= "timestamp > "@ + placeholder(next as nat)) by {
                    assert(""@ =~= Seq::<char>::empty()) by {
                        reveal_strlit("");
                    }
                }
                conds = conds.push(text@);
                vals = vals.push(SqlValueView::Integer(ts));
            }
            conditions.push(text);
            values.push(SqlValue::Integer(ts));
            next = next + 1;
        },
        None => {},
    }
    proof {
        assert(texts(conditions@) =~= conds);
        assert(value_views(values@) =~= vals);
        assert(conds =~= filter.conditions());
        assert(vals =~= filter.values());
        assert(next == filter.count() + 1);
        assert(conditions@.len() == filter.count());
    }
    let mut where_clause = String::new();
    if conditions.len() > 0 {
        where_clause.append("WHERE ");
        where_clause.append(join(&conditions, " AND ").as_str());
    }
    proof {
        assert(where_clause@ =~= filter.where_clause());
    }
    let mut count_sql = String::from_str("SELECT COUNT(*) FROM logs ");
    count_sql.append(where_clause.as_str());
    let mut data_sql = String::from_str(
        "SELECT id, timestamp, level, category, message, details FROM logs ",
    );
    data_sql.append(where_clause.as_str());
    data_sql.append(" ORDER BY timestamp DESC, id DESC LIMIT ");
    push_placeholder(&mut data_sql, next);
    data_sql.append(" OFFSET ");
    push_placeholder(&mut data_sql, next + 1);
    let filter_count = values.len();
    proof {
        assert(0 <= page * size <= 0xffff_ffff * 200) by (nonlinear_arith)
            requires
                0 <= page <= 0xffff_ffff,
                0 <= size <= 200,
        ;
    }
    let offset: u64 = page as u64 * size as u64;
    values.push(SqlValue::Integer(size as i64));
    values.push(SqlValue::Integer(offset as i64));
    proof {
        assert(value_views(values@) =~= filter.values() + seq![
            SqlValueView::Integer(size as i64),
            SqlValueView::Integer((page * size) as i64),
        ]);
    }
    LogQuery { count_sql, data_sql, values, filter_count, page, page_size: size }
}

/// The filter that the arguments of a read describe.
pub open spec fn filter_of(
    level: Option<&str>,
    category: Option<&str>,
    search: Option<&str>,
    since: Option<i64>,
) -> LogFilterView {
    LogFilterView {
        level: match level {
            Some(l) => Some(l@),
            None => None,
        },
        category: match category {
            Some(c) => Some(c@),
            None => None,
        },
        search: match search {
            Some(s) => Some(s@),
            None => None,
        },
        since,
    }
}

/// The time before which a clean-up deletes: `max_age_days` days before `now`,
/// both in milliseconds since the Unix epoch.
pub open spec fn cutoff(now: i64, max_age_days: u32) -> int {
    now - max_age_days * MILLIS_PER_DAY
}

/// The cut-off of a clean-up that runs at `now`.
pub fn cleanup_cutoff_at(now: i64, max_age_days: u32) -> (c: i64)
    requires
        cutoff(now, max_age_days) >= i64::MIN,
    ensures
        c == cutoff(now, max_age_days),
{
    now - (max_age_days as i64) * MILLIS_PER_DAY
}

/// The cut-off of a clean-up that runs at `now`, where it fits the integer
/// type: `max_age_days` days before `now`, or nothing if that time lies
/// before the earliest time that the type can hold.
pub open spec fn checked_cutoff(now: i64, max_age_days: u32) -> Option<i64> {
    if cutoff(now, max_age_days) >= i64::MIN {
        Some(cutoff(now, max_age_days) as i64)
    } else {
        None
    }
}

/// The cut-off of a clean-up that runs at `now`, or `None` where that time
/// does not fit the integer type.
pub fn cleanup_cutoff_for(now: i64, max_age_days: u32) -> (c: Option<i64>)
    ensures
        c == checked_cutoff(now, max_age_days),
{
    let age: i64 = (max_age_days as i64) * MILLIS_PER_DAY;
    if now >= i64::MIN + age {
        Some(cleanup_cutoff_at(now, max_age_days))
    } else {
        None
    }
}

} // verus!
