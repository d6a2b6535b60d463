//! The rows that a scan returns, and their layout as column vectors.
use crate::layout;
use crate::layout::ListEntry;
use vstd::prelude::*;

verus! {

/// One Kafka record as the scan returns it.
#[derive(Debug)]
pub struct Row {
    pub topic: String,
    pub partition: i32,
    pub offset: i64,
    pub key: Option<Vec<u8>>,
    pub message: Option<Vec<u8>>,
    pub headers: Vec<(String, Option<Vec<u8>>)>,
}

/// The value of a [`Row`].
pub struct RowView {
    pub topic: Seq<char>,
    pub partition: i32,
    pub offset: i64,
    pub key: Option<Seq<u8>>,
    pub message: Option<Seq<u8>>,
    pub headers: Seq<(Seq<char>, Option<Seq<u8>>)>,
}

/// The bytes of an optional byte string.
pub open spec fn bytes_view(bytes: Option<Vec<u8>>) -> Option<Seq<u8>> {
    match bytes {
        Some(b) => Some(b@),
        None => None,
    }
}

/// The bytes of an optional borrowed byte string.
pub open spec fn slice_view(bytes: Option<&[u8]>) -> Option<Seq<u8>> {
    match bytes {
        Some(b) => Some(b@),
        None => None,
    }
}

/// The names and values of headers.
pub open spec fn headers_view(headers: Seq<(String, Option<Vec<u8>>)>) -> Seq<
    (Seq<char>, Option<Seq<u8>>),
> {
    headers.map_values(|h: (String, Option<Vec<u8>>)| (h.0@, bytes_view(h.1)))
}

impl View for Row {
    type V = RowView;

    open spec fn view(&self) -> RowView {
        RowView {
            topic: self.topic@,
            partition: self.partition,
            offset: self.offset,
            key: bytes_view(self.key),
            message: bytes_view(self.message),
            headers: headers_view(self.headers@),
        }
    }
}

/// The values of several rows.
pub open spec fn rows_view(rows: Seq<Row>) -> Seq<RowView> {
    rows.map_values(|r: Row| r@)
}

/// Rows laid out as the six output columns. The header column is a list column: its entries point
/// into the child vectors of names and values.
pub struct RowColumns<'a> {
    pub topics: Vec<&'a str>,
    pub partitions: Vec<i32>,
    pub offsets: Vec<i64>,
    pub keys: Vec<Option<&'a [u8]>>,
    pub messages: Vec<Option<&'a [u8]>>,
    pub header_entries: Vec<ListEntry>,
    pub header_keys: Vec<&'a str>,
    pub header_values: Vec<Option<&'a [u8]>>,
}

/// The value of [`RowColumns`].
#[verifier::ext_equal]
pub struct RowColumnsView {
    pub topics: Seq<Seq<char>>,
    pub partitions: Seq<i32>,
    pub offsets: Seq<i64>,
    pub keys: Seq<Option<Seq<u8>>>,
    pub messages: Seq<Option<Seq<u8>>>,
    pub header_entries: Seq<(int, int)>,
    pub header_keys: Seq<Seq<char>>,
    pub header_values: Seq<Option<Seq<u8>>>,
}

impl<'a> View for RowColumns<'a> {
    type V = RowColumnsView;

    open spec fn view(&self) -> RowColumnsView {
        RowColumnsView {
            topics: self.topics@.map_values(|t: &str| t@),
            partitions: self.partitions@,
            offsets: self.offsets@,
            keys: self.keys@.map_values(|k: Option<&[u8]>| slice_view(k)),
            messages: self.messages@.map_values(|m: Option<&[u8]>| slice_view(m)),
            header_entries: self.header_entries@.map_values(|e: ListEntry| e@),
            header_keys: self.header_keys@.map_values(|k: &str| k@),
            header_values: self.header_values@.map_values(|v: Option<&[u8]>| slice_view(v)),
        }
    }
}

/// The header lists of rows.
pub open spec fn header_lists(rows: Seq<RowView>) -> Seq<Seq<(Seq<char>, Option<Seq<u8>>)>> {
    rows.map_values(|r: RowView| r.headers)
}

/// The columns of rows: one value per row in each, the headers of all rows one after another in
/// the child vectors of the header column.
pub open spec fn row_columns(rows: Seq<RowView>) -> RowColumnsView {
    let headers = header_lists(rows).flatten();
    RowColumnsView {
        topics: rows.map_values(|r: RowView| r.topic),
        partitions: rows.map_values(|r: RowView| r.partition),
        offsets: rows.map_values(|r: RowView| r.offset),
        keys: rows.map_values(|r: RowView| r.key),
        messages: rows.map_values(|r: RowView| r.message),
        header_entries: layout::packed_entries(header_lists(rows)),
        header_keys: headers.map_values(|h: (Seq<char>, Option<Seq<u8>>)| h.0),
        header_values: headers.map_values(|h: (Seq<char>, Option<Seq<u8>>)| h.1),
    }
}

/// The row that stands at index `i` of the columns.
pub open spec fn row_at(columns: RowColumnsView, i: int) -> RowView {
    let entry = columns.header_entries[i];
    RowView {
        topic: columns.topics[i],
        partition: columns.partitions[i],
        offset: columns.offsets[i],
        key: columns.keys[i],
        message: columns.messages[i],
        headers: Seq::new(
            entry.1 as nat,
            |j: int| (columns.header_keys[entry.0 + j], columns.header_values[entry.0 + j]),
        ),
    }
}

/// Borrows the bytes of an optional byte string.
fn borrow_bytes<'a>(bytes: &'a Option<Vec<u8>>) -> (r: Option<&'a [u8]>)
    ensures
        slice_view(r) == bytes_view(*bytes),
{
    match bytes {
        Some(b) => Some(b.as_slice()),
        None => None,
    }
}

/// The number of headers of all rows, or `None` where a `usize` does not hold it.
pub fn count_headers(rows: &[Row]) -> (r: Option<usize>)
    ensures
        r == (if layout::total_length(header_lists(rows_view(rows@))) <= usize::MAX {
            Some(layout::total_length(header_lists(rows_view(rows@))) as usize)
        } else {
            None
        }),
{
    let ghost lists = header_lists(rows_view(rows@));
    let mut total: usize = 0;
    let mut i: usize = 0;
    proof {
        assert(lists.take(0) =~= Seq::empty());
    }
    while i < rows.len()
        invariant
            i <= rows.len(),
            lists == header_lists(rows_view(rows@)),
            total == layout::total_length(lists.take(i as int)),
        decreases rows.len() - i,
    {
        proof {
            layout::lemma_flatten_take(lists, i as int);
            layout::lemma_flatten_split(lists, i + 1);
            assert(lists[i as int].len() == rows[i as int].headers.len());
        }
        match total.checked_add(rows[i].headers.len()) {
            Some(sum) => {
                total = sum;
            },
            None => {
                return None;
            },
        }
        i += 1;
    }
    proof {
        assert(lists.take(lists.len() as int) =~= lists);
    }
    Some(total)
}

/// Appends the headers of one row to the child vectors of the header column.
fn push_headers<'a>(
    headers: &'a Vec<(String, Option<Vec<u8>>)>,
    keys: &mut Vec<&'a str>,
    values: &mut Vec<Option<&'a [u8]>>,
)
    ensures
        final(keys)@.map_values(|k: &str| k@) == old(keys)@.map_values(|k: &str| k@)
            + headers_view(headers@).map_values(|h: (Seq<char>, Option<Seq<u8>>)| h.0),
        final(values)@.map_values(|v: Option<&[u8]>| slice_view(v)) == old(values)@.map_values(
            |v: Option<&[u8]>| slice_view(v),
        ) + headers_view(headers@).map_values(|h: (Seq<char>, Option<Seq<u8>>)| h.1),
{
    let ghost view = headers_view(headers@);
    let ghost keys_before = keys@.map_values(|k: &str| k@);
    let ghost values_before = values@.map_values(|v: Option<&[u8]>| slice_view(v));
    let mut j: usize = 0;
    while j < headers.len()
        invariant
            j <= headers.len(),
            view == headers_view(headers@),
            keys@.map_values(|k: &str| k@) =~= keys_before + view.take(j as int).map_values(
                |h: (Seq<char>, Option<Seq<u8>>)| h.0,
            ),
            values@.map_values(|v: Option<&[u8]>| slice_view(v)) =~= values_before + view.take(
                j as int,
            ).map_values(|h: (Seq<char>, Option<Seq<u8>>)| h.1),
        decreases headers.len() - j,
    {
        let ghost old_keys = keys@;
        let ghost old_values = values@;
        keys.push(headers[j].0.as_str());
        values.push(borrow_bytes(&headers[j].1));
        proof {
            assert(view.take(j + 1) =~= view.take(j as int).push(view[j as int]));
            assert(keys@.map_values(|k: &str| k@) =~= old_keys.map_values(|k: &str| k@).push(
                view[j as int].0,
            ));
            assert(values@.map_values(|v: Option<&[u8]>| slice_view(v)) =~= old_values.map_values(
                |v: Option<&[u8]>| slice_view(v),
            ).push(view[j as int].1));
        }
        j += 1;
    }
    proof {
        assert(view.take(view.len() as int) =~= view);
    }
}

/// Lays rows out as columns.
pub fn write_rows<'a>(rows: &'a [Row]) -> (columns: RowColumns<'a>)
    requires
        layout::total_length(header_lists(rows_view(rows@))) <= usize::MAX,
    ensures
        columns@ == row_columns(rows_view(rows@)),
{
    let ghost views = rows_view(rows@);
    let ghost lists = header_lists(views);
    let mut topics: Vec<&'a str> = Vec::new();
    let mut partitions: Vec<i32> = Vec::new();
    let mut offsets: Vec<i64> = Vec::new();
    let mut keys: Vec<Option<&'a [u8]>> = Vec::new();
    let mut messages: Vec<Option<&'a [u8]>> = Vec::new();
    let mut header_entries: Vec<ListEntry> = Vec::new();
    let mut header_keys: Vec<&'a str> = Vec::new();
    let mut header_values: Vec<Option<&'a [u8]>> = Vec::new();
    let mut offset: usize = 0;
    let mut i: usize = 0;
    proof {
        assert(lists.take(0) =~= Seq::empty());
    }
    while i < rows.len()
        invariant
            i <= rows.len(),
            views == rows_view(rows@),
            lists == header_lists(views),
            layout::total_length(lists) <= usize::MAX,
            offset == layout::total_length(lists.take(i as int)),
            topics.len() == i,
            partitions.len() == i,
            offsets.len() == i,
            keys.len() == i,
            messages.len() == i,
            header_entries.len() == i,
            forall|k: int| 0 <= k < i ==> (#[trigger] topics@[k])@ == views[k].topic,
            forall|k: int| 0 <= k < i ==> #[trigger] partitions@[k] == views[k].partition,
            forall|k: int| 0 <= k < i ==> #[trigger] offsets@[k] == views[k].offset,
            forall|k: int| 0 <= k < i ==> slice_view(#[trigger] keys@[k]) == views[k].key,
            forall|k: int| 0 <= k < i ==> slice_view(#[trigger] messages@[k]) == views[k].message,
            forall|k: int|
                0 <= k < i ==> (#[trigger] header_entries@[k])@ == layout::packed_entries(lists)[k],
            header_keys@.map_values(|k: &str| k@) == lists.take(i as int).flatten().map_values(
                |h: (Seq<char>, Option<Seq<u8>>)| h.0,
            ),
            header_values@.map_values(|v: Option<&[u8]>| slice_view(v)) == lists.take(
                i as int,
            ).flatten().map_values(|h: (Seq<char>, Option<Seq<u8>>)| h.1),
        decreases rows.len() - i,
    {
        let row = &rows[i];
        let ghost flat = lists.take(i as int).flatten();
        proof {
            layout::lemma_flatten_take(lists, i as int);
            layout::lemma_flatten_split(lists, i + 1);
            assert(lists[i as int] == headers_view(row.headers@));
        }
        topics.push(row.topic.as_str());
        partitions.push(row.partition);
        offsets.push(row.offset);
        keys.push(borrow_bytes(&row.key));
        messages.push(borrow_bytes(&row.message));
        header_entries.push(ListEntry { offset, length: row.headers.len() });
        offset += row.headers.len();
        push_headers(&row.headers, &mut header_keys, &mut header_values);
        proof {
            let name = |h: (Seq<char>, Option<Seq<u8>>)| h.0;
            let value = |h: (Seq<char>, Option<Seq<u8>>)| h.1;
            assert((flat + lists[i as int]).map_values(name) =~= flat.map_values(name)
                + lists[i as int].map_values(name));
            assert((flat + lists[i as int]).map_values(value) =~= flat.map_values(value)
                + lists[i as int].map_values(value));
        }
        i += 1;
    }
    let columns = RowColumns {
        topics,
        partitions,
        offsets,
        keys,
        messages,
        header_entries,
        header_keys,
        header_values,
    };
    proof {
        assert(lists.take(lists.len() as int) =~= lists);
        assert(columns@ =~= row_columns(views));
    }
    columns
}

/// The columns hold the rows: each row can be read back from them, with its headers in order,
/// repeated names kept and null values null.
pub proof fn law_columns_hold_the_rows(rows: Seq<RowView>, i: int)
    requires
        0 <= i < rows.len(),
    ensures
        row_at(row_columns(rows), i) == rows[i],
{
    let lists = header_lists(rows);
    layout::law_packed_entry_reads_back(lists, i);
    let entry = layout::packed_entries(lists)[i];
    let slice = layout::entry_slice(lists.flatten(), entry);
    assert forall|j: int| 0 <= j < rows[i].headers.len() implies row_at(
        row_columns(rows),
        i,
    ).headers[j] == rows[i].headers[j] by {
        assert(slice[j] == lists.flatten()[entry.0 + j]);
    }
    assert(row_at(row_columns(rows), i).headers =~= rows[i].headers);
}

/// Each column holds one value for each row, each field of the row in the column of its own, and
/// the headers of the row lie in the child vectors in their order, from the offset of its entry on.
/// The first entry starts at the beginning, each other one where the one before it ends, and the
/// child vectors hold the headers of all rows and no more.
pub proof fn law_columns_hold_each_field(rows: Seq<RowView>, i: int)
    requires
        0 <= i < rows.len(),
    ensures
        ({
            let c = row_columns(rows);
            let entry = c.header_entries[i];
            &&& c.topics.len() == rows.len()
            &&& c.partitions.len() == rows.len()
            &&& c.offsets.len() == rows.len()
            &&& c.keys.len() == rows.len()
            &&& c.messages.len() == rows.len()
            &&& c.header_entries.len() == rows.len()
            &&& c.topics[i] == rows[i].topic
            &&& c.partitions[i] == rows[i].partition
            &&& c.offsets[i] == rows[i].offset
            &&& c.keys[i] == rows[i].key
            &&& c.messages[i] == rows[i].message
            &&& entry.1 == rows[i].headers.len()
            &&& i == 0 ==> entry.0 == 0
            &&& i > 0 ==> entry.0 == c.header_entries[i - 1].0 + c.header_entries[i - 1].1
            &&& i == rows.len() - 1 ==> c.header_keys.len() == entry.0 + entry.1
            &&& c.header_values.len() == c.header_keys.len()
            &&& 0 <= entry.0 && entry.0 + entry.1 <= c.header_keys.len()
            &&& forall|j: int|
                0 <= j < rows[i].headers.len() ==> {
                    &&& (#[trigger] rows[i].headers[j]).0 == c.header_keys[entry.0 + j]
                    &&& rows[i].headers[j].1 == c.header_values[entry.0 + j]
                }
        }),
{
    let lists = header_lists(rows);
    assert(lists[i] == rows[i].headers);
    layout::law_packed_entry_reads_back(lists, i);
    layout::law_packed_entries_partition_the_child(lists, i);
    if i > 0 {
        layout::law_packed_entries_partition_the_child(lists, i - 1);
    }
    let entry = layout::packed_entries(lists)[i];
    let slice = layout::entry_slice(lists.flatten(), entry);
    assert forall|j: int| 0 <= j < rows[i].headers.len() implies {
        &&& (#[trigger] rows[i].headers[j]).0 == row_columns(rows).header_keys[entry.0 + j]
        &&& rows[i].headers[j].1 == row_columns(rows).header_values[entry.0 + j]
    } by {
        assert(slice[j] == lists.flatten()[entry.0 + j]);
    }
}

/// The number of headers of rows is the sum of the numbers of headers of each.
pub proof fn law_headers_are_counted_row_by_row(rows: Seq<RowView>)
    ensures
        rows.len() == 0 ==> layout::total_length(header_lists(rows)) == 0,
        rows.len() > 0 ==> layout::total_length(header_lists(rows)) == layout::total_length(
            header_lists(rows.drop_last()),
        ) + rows.last().headers.len(),
{
    let lists = header_lists(rows);
    if rows.len() > 0 {
        layout::lemma_flatten_take(lists, rows.len() - 1);
        assert(lists.take(rows.len() as int) =~= lists);
        assert(lists.take(rows.len() - 1) =~= header_lists(rows.drop_last()));
    }
}

/// The value of a row holds its fields, each in its own place, and rows are taken one by one.
pub proof fn law_row_value_is_its_fields(rows: Seq<Row>, i: int)
    requires
        0 <= i < rows.len(),
    ensures
        rows_view(rows).len() == rows.len(),
        ({
            let v = rows_view(rows)[i];
            let r = rows[i];
            &&& v.topic == r.topic@
            &&& v.partition == r.partition
            &&& v.offset == r.offset
            &&& v.key is Some <==> r.key is Some
            &&& r.key matches Some(bytes) ==> v.key == Some(bytes@)
            &&& v.message is Some <==> r.message is Some
            &&& r.message matches Some(bytes) ==> v.message == Some(bytes@)
            &&& v.headers.len() == r.headers@.len()
            &&& forall|j: int|
                0 <= j < r.headers@.len() ==> {
                    &&& (#[trigger] v.headers[j]).0 == r.headers@[j].0@
                    &&& v.headers[j].1 is Some <==> r.headers@[j].1 is Some
                    &&& r.headers@[j].1 matches Some(bytes) ==> v.headers[j].1 == Some(bytes@)
                }
        }),
{
}

/// The value of columns holds the columns, each in its own place and value by value.
pub proof fn law_columns_value_is_the_columns(c: RowColumns<'_>, i: int)
    ensures
        c@.topics.len() == c.topics@.len(),
        0 <= i < c.topics@.len() ==> c@.topics[i] == c.topics@[i]@,
        c@.partitions == c.partitions@,
        c@.offsets == c.offsets@,
        c@.keys.len() == c.keys@.len(),
        0 <= i < c.keys@.len() ==> c@.keys[i] == match c.keys@[i] {
            Some(bytes) => Some(bytes@),
            None => None,
        },
        c@.messages.len() == c.messages@.len(),
        0 <= i < c.messages@.len() ==> c@.messages[i] == match c.messages@[i] {
            Some(bytes) => Some(bytes@),
            None => None,
        },
        c@.header_entries.len() == c.header_entries@.len(),
        0 <= i < c.header_entries@.len() ==> c@.header_entries[i] == (
            c.header_entries@[i].offset as int,
            c.header_entries@[i].length as int,
        ),
        c@.header_keys.len() == c.header_keys@.len(),
        0 <= i < c.header_keys@.len() ==> c@.header_keys[i] == c.header_keys@[i]@,
        c@.header_values.len() == c.header_values@.len(),
        0 <= i < c.header_values@.len() ==> c@.header_values[i] == match c.header_values@[i] {
            Some(bytes) => Some(bytes@),
            None => None,
        },
{
}

} // verus!
