//! The tag registry: the model's classes, read from a delimited table whose row order
//! is the order of the model's output positions.
use vstd::prelude::*;
use vstd::string::{StrSliceExecFns, StringExecFns};
use crate::error::TaggerError;
use crate::file::{ArtifactSource, HfFile, TagCSVFile};

verus! {

/// The category of a tag, as coded in the table's `category` column.
#[derive(Debug, Clone, Copy, PartialEq, Eq, Structural)]
pub enum TagCategory {
    General,
    Artist,
    Copyright,
    Character,
    Meta,
    Rating,
}

/// The category that a code of the `category` column stands for: `0` general,
/// `1` artist, `3` copyright, `4` character, `5` meta, `9` rating.
pub open spec fn category_of_code(code: Seq<char>) -> Option<TagCategory> {
    if code.len() != 1 {
        None
    } else if code[0] == '0' {
        Some(TagCategory::General)
    } else if code[0] == '1' {
        Some(TagCategory::Artist)
    } else if code[0] == '3' {
        Some(TagCategory::Copyright)
    } else if code[0] == '4' {
        Some(TagCategory::Character)
    } else if code[0] == '5' {
        Some(TagCategory::Meta)
    } else if code[0] == '9' {
        Some(TagCategory::Rating)
    } else {
        None
    }
}

impl TagCategory {
    /// Reads a category code of the tag table.
    pub fn from_code(code: &str) -> (r: Option<TagCategory>)
        ensures
            r == category_of_code(code@),
    {
        if code.unicode_len() != 1 {
            return None;
        }
        let c = code.get_char(0);
        if c == '0' {
            Some(TagCategory::General)
        } else if c == '1' {
            Some(TagCategory::Artist)
        } else if c == '3' {
            Some(TagCategory::Copyright)
        } else if c == '4' {
            Some(TagCategory::Character)
        } else if c == '5' {
            Some(TagCategory::Meta)
        } else if c == '9' {
            Some(TagCategory::Rating)
        } else {
            None
        }
    }
}

/// Whether a character is an ASCII decimal digit.
pub open spec fn is_digit(c: char) -> bool {
    '0' <= c && c <= '9'
}

/// The value of a string of decimal digits.
pub open spec fn digits_value(s: Seq<char>) -> int
    decreases s.len(),
{
    if s.len() == 0 {
        0
    } else {
        digits_value(s.drop_last()) * 10 + (s.last() as int - '0' as int)
    }
}

/// The digits of a decimal integer: the text without a leading `+` or `-`.
pub open spec fn unsigned_part(s: Seq<char>) -> Seq<char> {
    if s.len() > 0 && (s[0] == '-' || s[0] == '+') {
        s.drop_first()
    } else {
        s
    }
}

/// The value that a decimal integer text denotes.
pub open spec fn decimal_value(s: Seq<char>) -> int {
    if s.len() > 0 && s[0] == '-' {
        -digits_value(unsigned_part(s))
    } else {
        digits_value(unsigned_part(s))
    }
}

/// Whether the text is a decimal `i32`: an optional sign, at least one digit and
/// nothing else, with a value in range.
pub open spec fn parses_as_i32(s: Seq<char>) -> bool {
    let d = unsigned_part(s);
    &&& d.len() > 0
    &&& forall|i: int| 0 <= i < d.len() ==> is_digit(#[trigger] d[i])
    &&& i32::MIN <= decimal_value(s) <= i32::MAX
}

/// A bound above every `i32` magnitude, at which the parser stops growing its value.
const DIGITS_CAP: u64 = 2147483649;

spec fn capped(v: int) -> int {
    if v > DIGITS_CAP {
        DIGITS_CAP as int
    } else {
        v
    }
}

/// Parses a decimal `i32` as `str::parse::<i32>` does.
pub fn parse_i32(s: &str) -> (r: Option<i32>)
    ensures
        r is Some <==> parses_as_i32(s@),
        r matches Some(v) ==> v as int == decimal_value(s@),
{
    let n = s.unicode_len();
    let mut start: usize = 0;
    let mut negative = false;
    if n > 0 {
        let c0 = s.get_char(0);
        if c0 == '-' {
            negative = true;
            start = 1;
        } else if c0 == '+' {
            start = 1;
        }
    }
    let ghost d = unsigned_part(s@);
    assert(d =~= s@.subrange(start as int, n as int));
    if start >= n {
        return None;
    }
    assert(negative <==> (s@.len() > 0 && s@[0] == '-'));
    let mut acc: u64 = 0;
    let mut i: usize = start;
    while i < n
        invariant
            start <= i <= n,
            n == s@.len(),
            d == s@.subrange(start as int, n as int),
            d == unsigned_part(s@),
            forall|j: int| start <= j < i ==> is_digit(#[trigger] s@[j]),
            acc as int == capped(digits_value(s@.subrange(start as int, i as int))),
            digits_value(s@.subrange(start as int, i as int)) >= 0,
            start < n,
            d.len() > 0,
            negative <==> (s@.len() > 0 && s@[0] == '-'),
        decreases n - i,
    {
        let c = s.get_char(i);
        if !('0' <= c && c <= '9') {
            assert(d[i - start] == c);
            assert(!is_digit(d[i - start]));
            assert(!parses_as_i32(s@));
            return None;
        }
        let dv: u64 = (c as u32 - '0' as u32) as u64;
        let ghost prev = digits_value(s@.subrange(start as int, i as int));
        let ghost next = s@.subrange(start as int, i + 1);
        assert(next.drop_last() =~= s@.subrange(start as int, i as int));
        assert(digits_value(next) == prev * 10 + dv);
        assert(capped(prev * 10 + dv) == if acc * 10 + dv > DIGITS_CAP { DIGITS_CAP as int } else { acc * 10 + dv }) by (nonlinear_arith)
            requires
                acc as int == capped(prev),
                prev >= 0,
                0 <= dv <= 9,
                acc <= DIGITS_CAP,
        ;
        acc = if acc * 10 + dv > DIGITS_CAP {
            DIGITS_CAP
        } else {
            acc * 10 + dv
        };
        i = i + 1;
    }
    assert(s@.subrange(start as int, n as int) =~= d);
    assert(forall|j: int| 0 <= j < d.len() ==> is_digit(#[trigger] d[j]) && d[j] == s@[j + start]);
    assert(acc as int == capped(digits_value(d)));
    if negative {
        if acc <= 2147483648 {
            Some((0 - acc as i64) as i32)
        } else {
            None
        }
    } else {
        if acc <= 2147483647 {
            Some(acc as i32)
        } else {
            None
        }
    }
}


/// A tag as the registry sees it.
pub struct TagView {
    pub tag_id: i32,
    pub name: Seq<char>,
    pub category: TagCategory,
    pub count: i32,
}

/// One record of the tag table.
#[derive(Debug, Clone)]
pub struct Tag {
    tag_id: i32,
    name: String,
    category: TagCategory,
    count: i32,
}

impl View for Tag {
    type V = TagView;

    closed spec fn view(&self) -> TagView {
        TagView {
            tag_id: self.tag_id,
            name: self.name@,
            category: self.category,
            count: self.count,
        }
    }
}

impl Tag {
    pub fn category(&self) -> (r: TagCategory)
        ensures
            r == self@.category,
    {
        self.category
    }

    pub fn name(&self) -> (r: String)
        ensures
            r@ == self@.name,
    {
        self.name.clone()
    }

    pub fn tag_id(&self) -> (r: i32)
        ensures
            r == self@.tag_id,
    {
        self.tag_id
    }

    pub fn count(&self) -> (r: i32)
        ensures
            r == self@.count,
    {
        self.count
    }
}

/// The text of each field of each record.
pub open spec fn table_view(rows: Seq<Vec<String>>) -> Seq<Seq<Seq<char>>> {
    rows.map_values(|row: Vec<String>| row@.map_values(|f: String| f@))
}

/// What the `csv` reader makes of a text, every line a record (the header line
/// included): `None` where it reports an error.
pub uninterp spec fn csv_records(text: Seq<char>) -> Option<Seq<Seq<Seq<char>>>>;

/// The error type of the `csv` reader, carried through as an opaque value.
#[verifier::external_type_specification]
#[verifier::external_body]
pub struct ExCsvError(csv::Error);

/// Relies on `csv::ReaderBuilder::from_reader` with headers off and on iterating its
/// `records`: every record of the text in order, as its fields; the reader's first
/// error otherwise. The result is a function of the text.
#[verifier::external_body]
fn read_csv_records(text: &str) -> (r: Result<Vec<Vec<String>>, csv::Error>)
    ensures
        match r {
            Ok(rows) => csv_records(text@) == Some(table_view(rows@)),
            Err(_) => csv_records(text@) is None,
        },
{
    let mut reader = csv::ReaderBuilder::new().has_headers(false).from_reader(text.as_bytes());
    reader.records().map(|rec| rec.map(|fields| fields.iter().map(String::from).collect())).collect()
}

/// Whether `i` is the first column whose header is `name`.
pub open spec fn is_first_column(header: Seq<Seq<char>>, name: Seq<char>, i: int) -> bool {
    &&& 0 <= i < header.len()
    &&& header[i] == name
    &&& forall|j: int| 0 <= j < i ==> header[j] != name
}

/// The first column whose header is `name`.
pub open spec fn column_of(header: Seq<Seq<char>>, name: Seq<char>) -> Option<int> {
    if exists|i: int| is_first_column(header, name, i) {
        Some(choose|i: int| is_first_column(header, name, i))
    } else {
        None
    }
}

/// The field of `row` in column `col`, if both exist.
pub open spec fn field_at(row: Seq<Seq<char>>, col: Option<int>) -> Option<Seq<char>> {
    match col {
        Some(c) => if 0 <= c < row.len() {
            Some(row[c])
        } else {
            None
        },
        None => None,
    }
}

/// The tag that a record stands for, its fields found by the header's column names
/// `tag_id`, `name`, `category` and `count`; `None` where one is missing or malformed.
pub open spec fn record_tag(header: Seq<Seq<char>>, row: Seq<Seq<char>>) -> Option<TagView> {
    let id = field_at(row, column_of(header, "tag_id"@));
    let name = field_at(row, column_of(header, "name"@));
    let cat = field_at(row, column_of(header, "category"@));
    let count = field_at(row, column_of(header, "count"@));
    if id is Some && name is Some && cat is Some && count is Some && parses_as_i32(id->0)
        && category_of_code(cat->0) is Some && parses_as_i32(count->0) {
        Some(
            TagView {
                tag_id: decimal_value(id->0) as i32,
                name: name->0,
                category: category_of_code(cat->0)->0,
                count: decimal_value(count->0) as i32,
            },
        )
    } else {
        None
    }
}

/// The tags of a table whose first record is its header, in row order; `None` where
/// a record is malformed. A table without any record holds no tag.
pub open spec fn table_tags(rows: Seq<Seq<Seq<char>>>) -> Option<Seq<TagView>> {
    if rows.len() == 0 {
        Some(Seq::empty())
    } else if forall|r: int| 1 <= r < rows.len() ==> (#[trigger] record_tag(rows[0], rows[r])) is Some {
        Some(Seq::new((rows.len() - 1) as nat, |i: int| record_tag(rows[0], rows[i + 1])->0))
    } else {
        None
    }
}

/// No two tags share a name.
pub open spec fn names_distinct(tags: Seq<TagView>) -> bool {
    forall|i: int, j: int| 0 <= i < j < tags.len() ==> tags[i].name != tags[j].name
}

/// Whether the table can be a registry: its records are well-formed and their names
/// distinct.
pub open spec fn valid_table(rows: Seq<Seq<Seq<char>>>) -> bool {
    table_tags(rows) is Some && names_distinct(table_tags(rows)->0)
}

proof fn lemma_first_column_unique(header: Seq<Seq<char>>, name: Seq<char>, i: int)
    requires
        is_first_column(header, name, i),
    ensures
        column_of(header, name) == Some(i),
{
    let k = choose|k: int| is_first_column(header, name, k);
    assert(is_first_column(header, name, k));
    if k < i {
        assert(header[k] == name);
    } else if i < k {
        assert(header[i] == name);
    }
}

/// A column index as a mathematical integer.
pub open spec fn as_int_opt(o: Option<usize>) -> Option<int> {
    match o {
        Some(v) => Some(v as int),
        None => None,
    }
}

/// The first column of `header` named `name`.
fn find_column(header: &Vec<String>, name: &str) -> (r: Option<usize>)
    ensures
        as_int_opt(r) == column_of(header@.map_values(|f: String| f@), name@),
{
    let ghost h = header@.map_values(|f: String| f@);
    let target = String::from_str(name);
    let mut i: usize = 0;
    while i < header.len()
        invariant
            i <= header.len(),
            h == header@.map_values(|f: String| f@),
            target@ == name@,
            forall|j: int| 0 <= j < i ==> h[j] != name@,
        decreases header.len() - i,
    {
        if header[i] == target {
            proof {
                lemma_first_column_unique(h, name@, i as int);
            }
            return Some(i);
        }
        i = i + 1;
    }
    assert(!exists|k: int| is_first_column(h, name@, k)) by {
        if exists|k: int| is_first_column(h, name@, k) {
            let k = choose|k: int| is_first_column(h, name@, k);
            assert(h[k] == name@);
        }
    }
    None
}

/// The field of `row` in column `col`.
fn field_of(row: &Vec<String>, col: Option<usize>) -> (r: Option<&String>)
    ensures
        match r {
            Some(f) => field_at(row@.map_values(|f: String| f@), as_int_opt(col)) == Some(f@),
            None => field_at(row@.map_values(|f: String| f@), as_int_opt(col)) is None,
        },
{
    match col {
        Some(c) => if c < row.len() {
            Some(&row[c])
        } else {
            None
        },
        None => None,
    }
}

/// The column of each field of a record.
struct Columns {
    tag_id: Option<usize>,
    name: Option<usize>,
    category: Option<usize>,
    count: Option<usize>,
}

impl Columns {
    spec fn of(self, header: Seq<Seq<char>>) -> bool {
        &&& as_int_opt(self.tag_id) == column_of(header, "tag_id"@)
        &&& as_int_opt(self.name) == column_of(header, "name"@)
        &&& as_int_opt(self.category) == column_of(header, "category"@)
        &&& as_int_opt(self.count) == column_of(header, "count"@)
    }
}

/// Reads one record into a tag.
fn parse_record(row: &Vec<String>, cols: &Columns, header: Ghost<Seq<Seq<char>>>) -> (r: Option<Tag>)
    requires
        cols.of(header@),
    ensures
        match r {
            Some(t) => record_tag(header@, row@.map_values(|f: String| f@)) == Some(t@),
            None => record_tag(header@, row@.map_values(|f: String| f@)) is None,
        },
{
    let id = field_of(row, cols.tag_id);
    let name = field_of(row, cols.name);
    let cat = field_of(row, cols.category);
    let count = field_of(row, cols.count);
    match (id, name, cat, count) {
        (Some(id), Some(name), Some(cat), Some(count)) => {
            let tag_id = parse_i32(id.as_str());
            let category = TagCategory::from_code(cat.as_str());
            let n = parse_i32(count.as_str());
            match (tag_id, category, n) {
                (Some(tag_id), Some(category), Some(n)) => Some(
                    Tag { tag_id, name: name.clone(), category, count: n },
                ),
                _ => None,
            }
        },
        _ => None,
    }
}

/// The tags of a model: row `i` of its tag table describes output position `i`.
#[derive(Debug)]
pub struct LabelTags {
    total_tags: usize,
    tags: Vec<Tag>,
}

impl View for LabelTags {
    type V = Seq<TagView>;

    closed spec fn view(&self) -> Seq<TagView> {
        self.tags@.map_values(|t: Tag| t@)
    }
}

/// Each tag's name paired with the probability at its position.
pub open spec fn pairs_of(tags: Seq<TagView>, probs: Seq<u32>) -> Seq<(Seq<char>, u32)> {
    Seq::new(probs.len(), |i: int| (tags[i].name, probs[i]))
}

/// The names and probabilities of a list of pairs.
pub open spec fn pairs_view(pairs: Seq<(String, u32)>) -> Seq<(Seq<char>, u32)> {
    pairs.map_values(|e: (String, u32)| (e.0@, e.1))
}

impl LabelTags {
    #[verifier::type_invariant]
    spec fn inv(&self) -> bool {
        &&& self.total_tags == self.tags@.len()
        &&& names_distinct(self@)
    }

    /// Whether `tags` holds a tag named `name`.
    fn holds_name(tags: &Vec<Tag>, name: &String) -> (r: bool)
        ensures
            r == exists|k: int| 0 <= k < tags@.len() && (#[trigger] tags@[k])@.name == name@,
    {
        let mut k: usize = 0;
        while k < tags.len()
            invariant
                k <= tags@.len(),
                forall|j: int| 0 <= j < k ==> (#[trigger] tags@[j])@.name != name@,
            decreases tags.len() - k,
        {
            if tags[k].name == *name {
                return true;
            }
            k = k + 1;
        }
        false
    }

    /// Builds the registry from the records of a tag table, the first record being
    /// the header. Fails with a tag error where a record is malformed or two tags share
    /// a name.
    pub fn from_records(rows: &Vec<Vec<String>>) -> (r: Result<LabelTags, TaggerError>)
        ensures
            r is Ok <==> valid_table(table_view(rows@)),
            r matches Ok(t) ==> t@ == table_tags(table_view(rows@))->0,
            r matches Err(e) ==> e is Tag,
    {
        let ghost tv = table_view(rows@);
        if rows.len() == 0 {
            let t = LabelTags { total_tags: 0, tags: Vec::new() };
            assert(t@ =~= Seq::<TagView>::empty());
            return Ok(t);
        }
        let header = &rows[0];
        let ghost h = header@.map_values(|f: String| f@);
        assert(h == tv[0]);
        let cols = Columns {
            tag_id: find_column(header, "tag_id"),
            name: find_column(header, "name"),
            category: find_column(header, "category"),
            count: find_column(header, "count"),
        };
        let mut tags: Vec<Tag> = Vec::new();
        let mut r: usize = 1;
        while r < rows.len()
            invariant
                1 <= r <= rows@.len(),
                tv == table_view(rows@),
                h == tv[0],
                cols.of(h),
                tags@.len() == r - 1,
                forall|k: int| 0 <= k < r - 1 ==> record_tag(h, tv[k + 1]) == Some(#[trigger] tags@[k]@),
                names_distinct(tags@.map_values(|t: Tag| t@)),
            decreases rows.len() - r,
        {
            let row = &rows[r];
            assert(row@.map_values(|f: String| f@) == tv[r as int]);
            match parse_record(row, &cols, Ghost(h)) {
                None => {
                    assert(record_tag(tv[0], tv[r as int]) is None);
                    return Err(TaggerError::Tag(String::from_str("malformed record in the tag table")));
                },
                Some(tag) => {
                    if Self::holds_name(&tags, &tag.name) {
                        proof {
                            let k = choose|k: int| 0 <= k < tags@.len() && (#[trigger] tags@[k])@.name == tag.name@;
                            if table_tags(tv) is Some {
                                let all = table_tags(tv)->0;
                                assert(all[k] == tags@[k]@);
                                assert(all[r - 1] == tag@);
                                assert(!names_distinct(all));
                            }
                        }
                        return Err(TaggerError::Tag(String::from_str("duplicate tag name in the tag table")));
                    }
                    let ghost before = tags@;
                    let ghost new_tag = tag@;
                    assert(forall|k: int| 0 <= k < before.len() ==> (#[trigger] before[k])@.name != new_tag.name);
                    tags.push(tag);
                    proof {
                        let old_vs = before.map_values(|t: Tag| t@);
                        let vs = tags@.map_values(|t: Tag| t@);
                        assert forall|i: int, j: int| 0 <= i < j < vs.len() implies vs[i].name != vs[j].name by {
                            assert(vs[i] == tags@[i]@);
                            assert(vs[j] == tags@[j]@);
                            assert(tags@[i] == before[i]);
                            if j == vs.len() - 1 {
                                assert(tags@[j]@ == new_tag);
                            } else {
                                assert(tags@[j] == before[j]);
                                assert(old_vs[i] == before[i]@);
                                assert(old_vs[j] == before[j]@);
                            }
                        }
                    }
                },
            }
            r = r + 1;
        }
        let ghost all = Seq::new((tv.len() - 1) as nat, |i: int| record_tag(tv[0], tv[i + 1])->0);
        assert(forall|q: int| 1 <= q < tv.len() ==> (#[trigger] record_tag(tv[0], tv[q])) is Some) by {
            assert forall|q: int| 1 <= q < tv.len() implies (#[trigger] record_tag(tv[0], tv[q])) is Some by {
                assert(record_tag(h, tv[(q - 1) + 1]) == Some(tags@[q - 1]@));
            }
        }
        assert(tags@.map_values(|t: Tag| t@) =~= all);
        let t = LabelTags { total_tags: tags.len(), tags };
        Ok(t)
    }

    /// Reads the registry from the text of a tag table: a header line naming the
    /// columns `tag_id`, `name`, `category` and `count`, then one line per tag.
    pub fn from_csv(text: &str) -> (r: Result<LabelTags, TaggerError>)
        ensures
            r is Ok <==> (csv_records(text@) is Some && valid_table(csv_records(text@)->0)),
            r matches Ok(t) ==> t@ == table_tags(csv_records(text@)->0)->0,
            r matches Err(e) ==> e is Tag,
    {
        match read_csv_records(text) {
            Ok(rows) => Self::from_records(&rows),
            Err(e) => Err(TaggerError::Tag(e.to_string())),
        }
    }

    /// Pairs each probability of one vector with the name of the tag at its position.
    fn map_pairs(&self, probs: &Vec<u32>) -> (r: Vec<(String, u32)>)
        requires
            probs@.len() == self@.len(),
        ensures
            pairs_view(r@) == pairs_of(self@, probs@),
    {
        let mut out: Vec<(String, u32)> = Vec::new();
        let mut i: usize = 0;
        while i < probs.len()
            invariant
                i <= probs@.len(),
                probs@.len() == self@.len(),
                self@ == self.tags@.map_values(|t: Tag| t@),
                out@.len() == i,
                pairs_view(out@) =~= pairs_of(self@, probs@.subrange(0, i as int)),
            decreases probs.len() - i,
        {
            let ghost before = out@;
            assert(self@[i as int] == self.tags@[i as int]@);
            let name = self.tags[i].name.clone();
            assert(name@ == self@[i as int].name);
            out.push((name, probs[i]));
            assert(pairs_view(out@) =~= pairs_of(self@, probs@.subrange(0, i + 1))) by {
                let a = pairs_view(out@);
                let e = pairs_of(self@, probs@.subrange(0, i + 1));
                assert forall|j: int| 0 <= j < a.len() implies a[j] == e[j] by {
                    if j < i {
                        assert(out@[j] == before[j]);
                        assert(pairs_view(before)[j] == pairs_of(self@, probs@.subrange(0, i as int))[j]);
                    }
                }
            }
            i = i + 1;
        }
        assert(probs@.subrange(0, probs@.len() as int) =~= probs@);
        out
    }

    /// Pairs every probability vector of a batch with the tag names: position `i`
    /// goes to the tag of row `i`. Fails with a tag error unless every vector has
    /// exactly one entry per tag.
    pub fn create_probality_pairs(&self, tensor: Vec<Vec<u32>>) -> (r: Result<
        Vec<Vec<(String, u32)>>,
        TaggerError,
    >)
        ensures
            r is Ok <==> forall|b: int| 0 <= b < tensor@.len() ==> (#[trigger] tensor@[b])@.len() == self@.len(),
            r matches Ok(pairs) ==> pairs@.len() == tensor@.len() && forall|b: int|
                0 <= b < pairs@.len() ==> pairs_view(#[trigger] pairs@[b]@) == pairs_of(self@, tensor@[b]@),
            r matches Err(e) ==> e is Tag,
    {
        proof {
            use_type_invariant(self);
        }
        let mut out: Vec<Vec<(String, u32)>> = Vec::new();
        let mut b: usize = 0;
        while b < tensor.len()
            invariant
                b <= tensor@.len(),
                self.total_tags == self@.len(),
                out@.len() == b,
                forall|k: int| 0 <= k < b ==> (#[trigger] tensor@[k])@.len() == self@.len(),
                forall|k: int| 0 <= k < b ==> pairs_view(#[trigger] out@[k]@) == pairs_of(self@, tensor@[k]@),
            decreases tensor.len() - b,
        {
            if tensor[b].len() != self.total_tags {
                return Err(TaggerError::Tag(String::from_str("Tags and probabilities length mismatch")));
            }
            let row = self.map_pairs(&tensor[b]);
            out.push(row);
            b = b + 1;
        }
        Ok(out)
    }

    /// The registry of repository `repo_id`, from its `selected_tags.csv` at the default
    /// revision as `source` provides it.
    pub fn from_pretrained<S: ArtifactSource>(repo_id: &str, source: &S) -> (r: Result<LabelTags, TaggerError>)
        ensures
            r matches Ok(t) ==> exists|text: Seq<char>|
                csv_records(text) is Some && valid_table(csv_records(text)->0) && t@ == table_tags(
                    csv_records(text)->0,
                )->0,
    {
        let text = source.tag_table(&TagCSVFile::new(repo_id))?;
        Self::from_csv(text.as_str())
    }

    /// The number of tags, which is the length of every probability vector.
    pub fn total_tags(&self) -> (r: usize)
        ensures
            r == self@.len(),
    {
        proof {
            use_type_invariant(self);
        }
        self.total_tags
    }

    /// The tags by position: entry `i` is the tag of output position `i`. Their names
    /// are distinct.
    pub fn idx2tag(&self) -> (r: &Vec<Tag>)
        ensures
            r@.map_values(|t: Tag| t@) == self@,
            names_distinct(self@),
    {
        proof {
            use_type_invariant(self);
        }
        &self.tags
    }

    /// The tag named `name`, if any.
    pub fn label2tag(&self, name: &str) -> (r: Option<&Tag>)
        ensures
            match r {
                Some(t) => exists|i: int| 0 <= i < self@.len() && self@[i] == t@ && t@.name == name@,
                None => forall|i: int| 0 <= i < self@.len() ==> self@[i].name != name@,
            },
    {
        let target = String::from_str(name);
        let mut k: usize = 0;
        while k < self.tags.len()
            invariant
                k <= self.tags@.len(),
                target@ == name@,
                forall|j: int| 0 <= j < k ==> self@[j].name != name@,
            decreases self.tags.len() - k,
        {
            if self.tags[k].name == target {
                assert(self@[k as int] == self.tags@[k as int]@);
                return Some(&self.tags[k]);
            }
            k = k + 1;
        }
        None
    }
}

} // verus!
