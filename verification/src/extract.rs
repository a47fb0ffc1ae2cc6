//! Record extraction from the fixed-schema delimited input.
//!
//! The input is a sequence of text lines. One designated line holds the
//! header: column names separated by commas. A fixed contiguous range of
//! lines holds the data rows. A named column is resolved against the
//! header by exact text match; a missing column or a too-short data row
//! degrades to a fixed sentinel value instead of failing.

use vstd::prelude::*;

verus! {

/// Splits a sequence of characters on every comma, as the data format
/// defines a row: the empty sequence yields one empty field, and each
/// comma ends the field before it.
pub open spec fn split_fields(s: Seq<char>) -> Seq<Seq<char>>
    decreases s.len(),
{
    if s.len() == 0 {
        seq![Seq::<char>::empty()]
    } else if s[0] == ',' {
        seq![Seq::<char>::empty()] + split_fields(s.skip(1))
    } else {
        let rest = split_fields(s.skip(1));
        rest.update(0, seq![s[0]] + rest[0])
    }
}

/// A split always produces at least one field.
pub proof fn lemma_split_fields_len(s: Seq<char>)
    ensures
        split_fields(s).len() >= 1,
    decreases s.len(),
{
    if s.len() == 0 {
    } else {
        lemma_split_fields_len(s.skip(1));
    }
}

/// Splits a line into its comma-separated fields.
pub fn split_line(s: &str) -> (r: Vec<String>)
    ensures
        r.deep_view() == split_fields(s@),
    decreases s@.len(),
{
    let n = s.unicode_len();
    if n == 0 {
        let mut r: Vec<String> = Vec::new();
        r.push(String::new());
        proof {
            assert(r.deep_view() =~= split_fields(s@));
        }
        r
    } else {
        let c = s.get_char(0);
        let rest = s.substring_char(1, n);
        proof {
            assert(rest@ =~= s@.skip(1));
        }
        let mut r = split_line(rest);
        proof {
            lemma_split_fields_len(s@.skip(1));
        }
        if c == ',' {
            r.insert(0, String::new());
            proof {
                assert(r.deep_view() =~= split_fields(s@));
            }
        } else {
            let head = s.substring_char(0, 1);
            proof {
                assert(head@ =~= seq![s@[0]]);
            }
            let mut field = head.to_owned();
            field.append(r[0].as_str());
            r.set(0, field);
            proof {
                assert(r.deep_view() =~= split_fields(s@));
            }
        }
        r
    }
}

/// Zero-based position of the first field equal to `name`, if any.
pub open spec fn col_index(cols: Seq<Seq<char>>, name: Seq<char>) -> Option<int>
    decreases cols.len(),
{
    if cols.len() == 0 {
        None
    } else if cols[0] == name {
        Some(0int)
    } else {
        match col_index(cols.skip(1), name) {
            Some(i) => Some(i + 1),
            None => None,
        }
    }
}

/// When no field before position `i` matches, the first match in the
/// whole list is the first match at or after `i`, shifted by `i`.
proof fn lemma_col_index_skip(cols: Seq<Seq<char>>, name: Seq<char>, i: int)
    requires
        0 <= i <= cols.len(),
        forall|j: int| 0 <= j < i ==> cols[j] != name,
    ensures
        col_index(cols, name) == match col_index(cols.skip(i), name) {
            Some(k) => Some(k + i),
            None => None::<int>,
        },
    decreases i,
{
    if i == 0 {
        assert(cols.skip(0) =~= cols);
    } else {
        lemma_col_index_skip(cols.skip(1), name, i - 1);
        assert(cols.skip(1).skip(i - 1) =~= cols.skip(i));
    }
}

/// Finds the position of the first column named `name`.
pub fn find_col(cols: &Vec<String>, name: &str) -> (r: Option<usize>)
    ensures
        match r {
            Some(i) => i < cols@.len() && col_index(cols.deep_view(), name@) == Some(i as int),
            None => col_index(cols.deep_view(), name@) is None,
        },
{
    let name_owned: String = name.to_owned();
    let n = cols.len();
    let ghost dv = cols.deep_view();
    let mut i: usize = 0;
    while i < n
        invariant
            i <= n,
            n == cols@.len(),
            dv == cols.deep_view(),
            dv.len() == n,
            name_owned@ == name@,
            forall|j: int| 0 <= j < i ==> dv[j] != name@,
        decreases n - i,
    {
        if cols[i] == name_owned {
            proof {
                lemma_col_index_skip(dv, name@, i as int);
                assert(dv.skip(i as int)[0] == dv[i as int]);
            }
            return Some(i);
        }
        i += 1;
    }
    proof {
        lemma_col_index_skip(dv, name@, n as int);
        assert(dv.skip(n as int) =~= Seq::<Seq<char>>::empty());
    }
    None
}

/// The fixed placeholder stored when a requested column cannot be found.
pub open spec fn sentinel() -> Seq<char> {
    "get_data: data not found"@
}

/// The placeholder as an owned value.
pub fn sentinel_text() -> (r: String)
    ensures
        r@ == sentinel(),
{
    "get_data: data not found".to_owned()
}

/// The value of the column named `request` in the row `data`, resolved
/// against the column names in `header`; the sentinel when the header
/// has no such column or the row is too short to hold it.
pub open spec fn spec_get_data(data: Seq<char>, header: Seq<char>, request: Seq<char>) -> Seq<char> {
    match col_index(split_fields(header), request) {
        Some(i) => if i < split_fields(data).len() {
            split_fields(data)[i]
        } else {
            sentinel()
        },
        None => sentinel(),
    }
}

/// Supplies back the requested information if it exists in the provided
/// data row, and the sentinel text otherwise.
pub fn get_data(data: &String, header: &String, request: &str) -> (r: String)
    ensures
        r@ == spec_get_data(data@, header@, request@),
{
    let cols = split_line(header.as_str());
    match find_col(&cols, request) {
        Some(i) => {
            let fields = split_line(data.as_str());
            if i < fields.len() {
                let r = fields[i].clone();
                proof {
                    assert(fields.deep_view()[i as int] == fields@[i as int]@);
                }
                r
            } else {
                sentinel_text()
            }
        },
        None => sentinel_text(),
    }
}

/// A payment value with every dollar sign and space character removed;
/// nothing else changes, and no numeric parsing happens.
pub open spec fn strip_payment(s: Seq<char>) -> Seq<char> {
    s.filter(|c: char| c != '$' && c != ' ')
}

/// Removes every `$` and space character from a fee value.
pub fn strip_fee(s: &str) -> (r: String)
    ensures
        r@ == strip_payment(s@),
{
    let n = s.unicode_len();
    let mut r = String::new();
    let mut i: usize = 0;
    proof {
        reveal(Seq::filter);
        assert(s@.take(0) =~= Seq::<char>::empty());
    }
    while i < n
        invariant
            i <= n,
            n == s@.len(),
            r@ == strip_payment(s@.take(i as int)),
        decreases n - i,
    {
        let c = s.get_char(i);
        if !(c == '$' || c == ' ') {
            let piece = s.substring_char(i, i + 1);
            proof {
                assert(piece@ =~= seq![s@[i as int]]);
            }
            r.append(piece);
        }
        proof {
            reveal(Seq::filter);
            let taken = s@.take(i + 1);
            assert(taken.drop_last() =~= s@.take(i as int));
            assert(taken.last() == s@[i as int]);
        }
        i += 1;
    }
    proof {
        assert(s@.take(n as int) =~= s@);
    }
    r
}

/// Holds the necessary member information for one receipt.
#[derive(Debug, Clone)]
pub struct Member {
    pub first_name: String,
    pub last_name: String,
    pub payment: String,
}

/// The stored payment text for one data row: the fee column's value
/// with `$` and spaces stripped when the column is present and the row
/// holds it, and the unmodified sentinel text otherwise.
pub open spec fn spec_payment(data: Seq<char>, header: Seq<char>) -> Seq<char> {
    match col_index(split_fields(header), "Fee"@) {
        Some(i) => if i < split_fields(data).len() {
            strip_payment(split_fields(data)[i])
        } else {
            sentinel()
        },
        None => sentinel(),
    }
}

/// Computes the stored payment text for one data row.
pub fn payment_value(data: &String, header: &String) -> (r: String)
    ensures
        r@ == spec_payment(data@, header@),
{
    let cols = split_line(header.as_str());
    match find_col(&cols, "Fee") {
        Some(i) => {
            let fields = split_line(data.as_str());
            if i < fields.len() {
                let r = strip_fee(fields[i].as_str());
                proof {
                    assert(fields.deep_view()[i as int] == fields@[i as int]@);
                }
                r
            } else {
                sentinel_text()
            }
        },
        None => sentinel_text(),
    }
}

/// One-indexed line on which the header row stands.
pub const HEADER_LINE_NUM: usize = 3;

/// One-indexed line on which the receipt data starts.
pub const DATA_START_LINE: usize = 4;

/// Number of data rows consumed from the input.
pub const DATA_ROW_COUNT: usize = 6;

/// Whether `m` holds exactly the receipt data of the data row `data`
/// resolved against the header row `header`.
pub open spec fn member_of_row(m: Member, data: Seq<char>, header: Seq<char>) -> bool {
    &&& m.first_name@ == spec_get_data(data, header, "First Name"@)
    &&& m.last_name@ == spec_get_data(data, header, "Last Name"@)
    &&& m.payment@ == spec_payment(data, header)
}

/// Builds the member records from the lines of an input file: the
/// header stands on the third line, and the six lines after it are the
/// data rows, taken in file order.
pub fn extract_members(lines: &Vec<String>) -> (r: Vec<Member>)
    requires
        lines@.len() >= 9,
    ensures
        r@.len() == DATA_ROW_COUNT,
        forall|i: int|
            0 <= i < DATA_ROW_COUNT ==> member_of_row(
                #[trigger] r@[i],
                lines@[DATA_START_LINE - 1 + i]@,
                lines@[HEADER_LINE_NUM - 1]@,
            ),
{
    let header = &lines[HEADER_LINE_NUM - 1];
    let mut r: Vec<Member> = Vec::new();
    let mut i: usize = 0;
    while i < DATA_ROW_COUNT
        invariant
            i <= DATA_ROW_COUNT,
            lines@.len() >= 9,
            header@ == lines@[HEADER_LINE_NUM - 1]@,
            r@.len() == i,
            forall|j: int|
                0 <= j < i ==> member_of_row(
                    #[trigger] r@[j],
                    lines@[DATA_START_LINE - 1 + j]@,
                    lines@[HEADER_LINE_NUM - 1]@,
                ),
        decreases DATA_ROW_COUNT - i,
    {
        let data = &lines[DATA_START_LINE - 1 + i];
        let first_name = get_data(data, header, "First Name");
        let last_name = get_data(data, header, "Last Name");
        let payment = payment_value(data, header);
        r.push(Member { first_name, last_name, payment });
        i += 1;
    }
    r
}

/// When the header row has no column named `Fee`, every extracted
/// member's payment is the sentinel text, whatever the data rows hold.
pub proof fn lemma_missing_fee_column(members: Seq<Member>, lines: Seq<String>)
    requires
        lines.len() >= 9,
        members.len() == DATA_ROW_COUNT,
        forall|i: int|
            0 <= i < DATA_ROW_COUNT ==> member_of_row(
                #[trigger] members[i],
                lines[DATA_START_LINE - 1 + i]@,
                lines[HEADER_LINE_NUM - 1]@,
            ),
        col_index(split_fields(lines[HEADER_LINE_NUM - 1]@), "Fee"@) is None,
    ensures
        forall|i: int| 0 <= i < DATA_ROW_COUNT ==> (#[trigger] members[i]).payment@ == sentinel(),
{
}

} // verus!
