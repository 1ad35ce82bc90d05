use vstd::prelude::*;
use crate::text::{chars_of, trim, trim_bounds, string_of};
use crate::apps::utf8_len;

verus! {

pub const MAX_LAYOUT_JSON_BYTES: usize = 4194304;

pub const MAX_DISKS: usize = 64;

pub const MAX_PARTITIONS_PER_DISK: usize = 256;

pub const MAX_TEXT_LENGTH: usize = 256;

/// One disk of the partition layout that Windows reports.
#[derive(Clone, Debug)]
pub struct PartitionDisk {
    pub number: u32,
    pub friendly_name: String,
    pub partition_style: String,
    pub bus_type: String,
    pub health_status: String,
    pub operational_status: String,
    pub size_bytes: u64,
    pub is_boot: bool,
    pub is_system: bool,
    pub is_offline: bool,
    pub is_read_only: bool,
    pub partitions: Vec<DiskPartition>,
}

/// One partition of a disk, with its volume's figures.
#[derive(Clone, Debug)]
pub struct DiskPartition {
    pub partition_number: u32,
    pub drive_letter: Option<String>,
    pub offset_bytes: u64,
    pub size_bytes: u64,
    pub partition_type: String,
    pub gpt_type: String,
    pub is_system: bool,
    pub is_boot: bool,
    pub is_active: bool,
    pub is_hidden: bool,
    pub is_read_only: bool,
    pub no_default_drive_letter: bool,
    pub file_system: String,
    pub label: String,
    pub health_status: String,
    pub free_bytes: u64,
}

/// Whether a character is a control character (`char::is_control`).
pub open spec fn is_control(c: char) -> bool {
    (c as u32) < 0x20 || (0x7f <= (c as u32) && (c as u32) < 0xa0)
}

/// Whether a layout text is acceptable once trimmed: at most 256 bytes and
/// no control character.
pub open spec fn text_ok(s: Seq<char>) -> bool {
    utf8_len(trim(s)) <= MAX_TEXT_LENGTH && forall|i: int| 0 <= i < trim(s).len() ==> !is_control(#[trigger] trim(s)[i])
}

/// The refusal for a bad text field.
pub open spec fn field_message(field: Seq<char>) -> Seq<char> {
    "磁盘布局中的 "@ + field + " 字段无效"@
}

/// Trims a layout text and checks it; `field` names it in the refusal.
pub fn validate_text(value: &String, field: &str) -> (r: Result<String, String>)
    ensures
        match r {
            Ok(text) => text_ok(value@) && text@ == trim(value@),
            Err(message) => !text_ok(value@) && message@ == field_message(field@),
        },
{
    let chars = chars_of(value.as_str());
    let (lo, hi) = trim_bounds(&chars);
    let trimmed = string_of(&chars, lo, hi);
    let tchars = crate::tree::slice_chars(&chars, lo, hi);
    let mut i: usize = 0;
    while i < tchars.len()
        invariant
            0 <= i <= tchars@.len(),
            tchars@ == trim(value@),
            forall|k: int| 0 <= k < i ==> !is_control(#[trigger] tchars@[k]),
        decreases tchars@.len() - i,
    {
        let u = tchars[i] as u32;
        if u < 0x20 || (0x7f <= u && u < 0xa0) {
            assert(is_control(tchars@[i as int]));
            let mut message = "磁盘布局中的 ".to_string();
            vstd::string::StringExecFns::append(&mut message, field);
            vstd::string::StringExecFns::append(&mut message, " 字段无效");
            return Err(message);
        }
        i = i + 1;
    }
    if crate::apps::utf8_longer_than(&tchars, MAX_TEXT_LENGTH as u64) {
        let mut message = "磁盘布局中的 ".to_string();
        vstd::string::StringExecFns::append(&mut message, field);
        vstd::string::StringExecFns::append(&mut message, " 字段无效");
        return Err(message);
    }
    Ok(trimmed)
}

pub open spec fn ascii_upper(c: char) -> char {
    if 'a' <= c <= 'z' {
        ((c as u32) - 32) as char
    } else {
        c
    }
}

/// A drive letter as stored: trimmed and upper-cased, when it is one ASCII letter.
pub open spec fn drive_letter_spec(value: Seq<char>) -> Option<Seq<char>> {
    let t = trim(value);
    if t.len() == 1 && (('a' <= t[0] <= 'z') || ('A' <= t[0] <= 'Z')) {
        Some(seq![ascii_upper(t[0])])
    } else {
        None
    }
}

/// Normalises an optional drive letter; refuses one that is not a single
/// ASCII letter.
pub fn validate_drive_letter(value: &Option<String>) -> (r: Result<Option<String>, String>)
    ensures
        match value {
            None => r matches Ok(None),
            Some(letter) => match drive_letter_spec(letter@) {
                Some(normal) => r matches Ok(Some(text)) && text@ == normal,
                None => r matches Err(message) && message@ == "磁盘布局包含无效盘符"@,
            },
        },
{
    let letter = match value {
        None => return Ok(None),
        Some(letter) => letter,
    };
    let chars = chars_of(letter.as_str());
    let (lo, hi) = trim_bounds(&chars);
    if hi - lo != 1 {
        return Err("磁盘布局包含无效盘符".to_string());
    }
    let c = chars[lo];
    assert(trim(letter@)[0] == c);
    if !(('a' <= c && c <= 'z') || ('A' <= c && c <= 'Z')) {
        return Err("磁盘布局包含无效盘符".to_string());
    }
    let upper = if 'a' <= c && c <= 'z' {
        ((c as u8) - 32) as char
    } else {
        c
    };
    let mut out = String::new();
    crate::text::push_char(&mut out, upper);
    Ok(Some(out))
}


/// The refusal of one partition at its place on a disk of `disk_size` bytes
/// whose previous partition ended at `previous_end`, or `None`.
pub open spec fn partition_refusal(p: DiskPartition, disk_size: u64, previous_end: u64) -> Option<Seq<char>> {
    if p.partition_number == 0 || p.size_bytes == 0 {
        Some("磁盘布局包含无效分区"@)
    } else if p.offset_bytes + p.size_bytes > u64::MAX {
        Some("分区边界发生整数溢出"@)
    } else if p.offset_bytes < previous_end || p.offset_bytes + p.size_bytes > disk_size {
        Some("磁盘布局包含重叠或越界分区"@)
    } else if p.free_bytes > p.size_bytes {
        Some("卷可用空间大于分区容量"@)
    } else if p.drive_letter matches Some(letter) && drive_letter_spec(letter@) is None {
        Some("磁盘布局包含无效盘符"@)
    } else if !text_ok(p.partition_type@) {
        Some(field_message("分区类型"@))
    } else if !text_ok(p.gpt_type@) {
        Some(field_message("GPT 类型"@))
    } else if !text_ok(p.file_system@) {
        Some(field_message("文件系统"@))
    } else if !text_ok(p.label@) {
        Some(field_message("卷标"@))
    } else if !text_ok(p.health_status@) {
        Some(field_message("卷健康状态"@))
    } else {
        None
    }
}

/// Whether `q` is `p` with its texts trimmed and its drive letter normalised.
pub open spec fn normalized_partition(p: DiskPartition, q: DiskPartition) -> bool {
    &&& q.partition_number == p.partition_number
    &&& q.offset_bytes == p.offset_bytes
    &&& q.size_bytes == p.size_bytes
    &&& q.free_bytes == p.free_bytes
    &&& q.is_system == p.is_system && q.is_boot == p.is_boot && q.is_active == p.is_active
    &&& q.is_hidden == p.is_hidden && q.is_read_only == p.is_read_only
    &&& q.no_default_drive_letter == p.no_default_drive_letter
    &&& match p.drive_letter {
        None => q.drive_letter is None,
        Some(letter) => q.drive_letter matches Some(normal) && Some(normal@) == drive_letter_spec(letter@),
    }
    &&& q.partition_type@ == trim(p.partition_type@)
    &&& q.gpt_type@ == trim(p.gpt_type@)
    &&& q.file_system@ == trim(p.file_system@)
    &&& q.label@ == trim(p.label@)
    &&& q.health_status@ == trim(p.health_status@)
}

/// Checks one partition at its place and normalises it; returns it with
/// the offset at which it ends.
pub fn validate_partition(partition: &DiskPartition, disk_size: u64, previous_end: u64) -> (r: Result<(DiskPartition, u64), String>)
    ensures
        match r {
            Ok((q, end)) => partition_refusal(*partition, disk_size, previous_end) is None
                && normalized_partition(*partition, q) && end == partition.offset_bytes + partition.size_bytes,
            Err(message) => partition_refusal(*partition, disk_size, previous_end) == Some(message@),
        },
{
    if partition.partition_number == 0 || partition.size_bytes == 0 {
        return Err("磁盘布局包含无效分区".to_string());
    }
    let end = match partition.offset_bytes.checked_add(partition.size_bytes) {
        Some(end) => end,
        None => return Err("分区边界发生整数溢出".to_string()),
    };
    if partition.offset_bytes < previous_end || end > disk_size {
        return Err("磁盘布局包含重叠或越界分区".to_string());
    }
    if partition.free_bytes > partition.size_bytes {
        return Err("卷可用空间大于分区容量".to_string());
    }
    let drive_letter = validate_drive_letter(&partition.drive_letter)?;
    let partition_type = validate_text(&partition.partition_type, "分区类型")?;
    let gpt_type = validate_text(&partition.gpt_type, "GPT 类型")?;
    let file_system = validate_text(&partition.file_system, "文件系统")?;
    let label = validate_text(&partition.label, "卷标")?;
    let health_status = validate_text(&partition.health_status, "卷健康状态")?;
    Ok((
        DiskPartition {
            partition_number: partition.partition_number,
            drive_letter,
            offset_bytes: partition.offset_bytes,
            size_bytes: partition.size_bytes,
            partition_type,
            gpt_type,
            is_system: partition.is_system,
            is_boot: partition.is_boot,
            is_active: partition.is_active,
            is_hidden: partition.is_hidden,
            is_read_only: partition.is_read_only,
            no_default_drive_letter: partition.no_default_drive_letter,
            file_system,
            label,
            health_status,
            free_bytes: partition.free_bytes,
        },
        end,
    ))
}


/// `s` with `x` inserted before the first partition that starts after it.
pub open spec fn insert_by_offset(x: DiskPartition, s: Seq<DiskPartition>) -> Seq<DiskPartition>
    decreases s.len(),
{
    if s.len() == 0 {
        seq![x]
    } else if x.offset_bytes < s[0].offset_bytes {
        seq![x] + s
    } else {
        seq![s[0]] + insert_by_offset(x, s.drop_first())
    }
}

/// The partitions ordered by offset; partitions with equal offsets keep
/// their order.
pub open spec fn by_offset(s: Seq<DiskPartition>) -> Seq<DiskPartition>
    decreases s.len(),
{
    if s.len() == 0 {
        seq![]
    } else {
        insert_by_offset(s.last(), by_offset(s.drop_last()))
    }
}

proof fn lemma_insert_by_offset_at(x: DiskPartition, s: Seq<DiskPartition>, p: int)
    requires
        0 <= p <= s.len(),
        forall|j: int| 0 <= j < p ==> !(x.offset_bytes < #[trigger] s[j].offset_bytes),
        p < s.len() ==> x.offset_bytes < s[p].offset_bytes,
    ensures
        insert_by_offset(x, s) == s.insert(p, x),
    decreases s.len(),
{
    if s.len() == 0 {
        assert(s.insert(p, x) =~= seq![x]);
    } else if p == 0 {
        assert(s.insert(0, x) =~= seq![x] + s);
    } else {
        assert(!(x.offset_bytes < s[0].offset_bytes));
        assert forall|j: int| 0 <= j < p - 1 implies !(x.offset_bytes < #[trigger] s.drop_first()[j].offset_bytes) by {
            assert(s.drop_first()[j] == s[j + 1]);
        }
        lemma_insert_by_offset_at(x, s.drop_first(), p - 1);
        assert(s.insert(p, x) =~= seq![s[0]] + s.drop_first().insert(p - 1, x));
    }
}

/// Orders partitions by offset, keeping the order of equal offsets.
pub fn sort_partitions(partitions: Vec<DiskPartition>) -> (r: Vec<DiskPartition>)
    ensures
        r@ == by_offset(partitions@),
{
    let ghost all = partitions@;
    let mut rest = partitions;
    let mut out: Vec<DiskPartition> = Vec::new();
    let mut taken: Ghost<Seq<DiskPartition>> = Ghost(Seq::empty());
    assert(all =~= taken@ + rest@);
    while rest.len() > 0
        invariant
            all == taken@ + rest@,
            out@ == by_offset(taken@),
        decreases rest@.len(),
    {
        let ghost before_rest = rest@;
        let x = rest.remove(0);
        let mut p: usize = 0;
        while p < out.len() && !(x.offset_bytes < out[p].offset_bytes)
            invariant
                0 <= p <= out@.len(),
                forall|j: int| 0 <= j < p ==> !(x.offset_bytes < #[trigger] out@[j].offset_bytes),
            decreases out@.len() - p,
        {
            p = p + 1;
        }
        proof {
            lemma_insert_by_offset_at(x, out@, p as int);
            assert(taken@.push(x).drop_last() =~= taken@);
            assert(before_rest[0] == x);
            assert(all =~= taken@.push(x) + rest@);
        }
        out.insert(p, x);
        proof {
            taken@ = taken@.push(x);
        }
    }
    assert(taken@ =~= all);
    out
}

/// `s` with `x` inserted before the first disk with a larger number.
pub open spec fn insert_by_number(x: PartitionDisk, s: Seq<PartitionDisk>) -> Seq<PartitionDisk>
    decreases s.len(),
{
    if s.len() == 0 {
        seq![x]
    } else if x.number < s[0].number {
        seq![x] + s
    } else {
        seq![s[0]] + insert_by_number(x, s.drop_first())
    }
}

/// The disks ordered by number; disks with equal numbers keep their order.
pub open spec fn by_number(s: Seq<PartitionDisk>) -> Seq<PartitionDisk>
    decreases s.len(),
{
    if s.len() == 0 {
        seq![]
    } else {
        insert_by_number(s.last(), by_number(s.drop_last()))
    }
}

proof fn lemma_insert_by_number_at(x: PartitionDisk, s: Seq<PartitionDisk>, p: int)
    requires
        0 <= p <= s.len(),
        forall|j: int| 0 <= j < p ==> !(x.number < #[trigger] s[j].number),
        p < s.len() ==> x.number < s[p].number,
    ensures
        insert_by_number(x, s) == s.insert(p, x),
    decreases s.len(),
{
    if s.len() == 0 {
        assert(s.insert(p, x) =~= seq![x]);
    } else if p == 0 {
        assert(s.insert(0, x) =~= seq![x] + s);
    } else {
        assert(!(x.number < s[0].number));
        assert forall|j: int| 0 <= j < p - 1 implies !(x.number < #[trigger] s.drop_first()[j].number) by {
            assert(s.drop_first()[j] == s[j + 1]);
        }
        lemma_insert_by_number_at(x, s.drop_first(), p - 1);
        assert(s.insert(p, x) =~= seq![s[0]] + s.drop_first().insert(p - 1, x));
    }
}

/// Orders disks by number, keeping the order of equal numbers.
pub fn sort_disks(disks: Vec<PartitionDisk>) -> (r: Vec<PartitionDisk>)
    ensures
        r@ == by_number(disks@),
{
    let ghost all = disks@;
    let mut rest = disks;
    let mut out: Vec<PartitionDisk> = Vec::new();
    let mut taken: Ghost<Seq<PartitionDisk>> = Ghost(Seq::empty());
    assert(all =~= taken@ + rest@);
    while rest.len() > 0
        invariant
            all == taken@ + rest@,
            out@ == by_number(taken@),
        decreases rest@.len(),
    {
        let ghost before_rest = rest@;
        let x = rest.remove(0);
        let mut p: usize = 0;
        while p < out.len() && !(x.number < out[p].number)
            invariant
                0 <= p <= out@.len(),
                forall|j: int| 0 <= j < p ==> !(x.number < #[trigger] out@[j].number),
            decreases out@.len() - p,
        {
            p = p + 1;
        }
        proof {
            lemma_insert_by_number_at(x, out@, p as int);
            assert(taken@.push(x).drop_last() =~= taken@);
            assert(before_rest[0] == x);
            assert(all =~= taken@.push(x) + rest@);
        }
        out.insert(p, x);
        proof {
            taken@ = taken@.push(x);
        }
    }
    assert(taken@ =~= all);
    out
}


/// The refusal of a disk's partitions checked in the given order, after a
/// partition that ended at `previous_end` and with the numbers already seen.
pub open spec fn partitions_refusal(ps: Seq<DiskPartition>, disk_size: u64, previous_end: u64, seen: Set<u32>) -> Option<Seq<char>>
    decreases ps.len(),
{
    if ps.len() == 0 {
        None
    } else if seen.contains(ps[0].partition_number) {
        Some("磁盘布局包含重复分区编号"@)
    } else {
        match partition_refusal(ps[0], disk_size, previous_end) {
            Some(message) => Some(message),
            None => partitions_refusal(
                ps.drop_first(),
                disk_size,
                (ps[0].offset_bytes + ps[0].size_bytes) as u64,
                seen.insert(ps[0].partition_number),
            ),
        }
    }
}

/// Checks a disk's partitions in the given order and normalises them.
fn validate_partitions(partitions: Vec<DiskPartition>, disk_size: u64) -> (r: Result<Vec<DiskPartition>, String>)
    ensures
        match r {
            Ok(out) => partitions_refusal(partitions@, disk_size, 0, Set::empty()) is None
                && out@.len() == partitions@.len()
                && forall|k: int| 0 <= k < out@.len() ==> normalized_partition(partitions@[k], #[trigger] out@[k]),
            Err(message) => partitions_refusal(partitions@, disk_size, 0, Set::empty()) == Some(message@),
        },
{
    let ghost all = partitions@;
    let mut out: Vec<DiskPartition> = Vec::new();
    let mut seen: Vec<u32> = Vec::new();
    let mut previous_end: u64 = 0;
    let mut i: usize = 0;
    assert(all.skip(0) =~= all);
    assert(seen@.to_set() =~= Set::<u32>::empty());
    while i < partitions.len()
        invariant
            0 <= i <= all.len(),
            all == partitions@,
            out@.len() == i,
            forall|k: int| 0 <= k < i ==> normalized_partition(all[k], #[trigger] out@[k]),
            partitions_refusal(all, disk_size, 0, Set::empty()) == partitions_refusal(all.skip(i as int), disk_size, previous_end, seen@.to_set()),
        decreases all.len() - i,
    {
        let partition = &partitions[i];
        assert(all.skip(i as int)[0] == all[i as int]);
        assert(all.skip(i as int).drop_first() =~= all.skip(i + 1));
        let mut duplicate = false;
        let mut k: usize = 0;
        while k < seen.len()
            invariant
                0 <= k <= seen@.len(),
                duplicate == exists|j: int| 0 <= j < k && seen@[j] == partition.partition_number,
            decreases seen@.len() - k,
        {
            if seen[k] == partition.partition_number {
                duplicate = true;
            }
            k = k + 1;
        }
        assert(duplicate == seen@.to_set().contains(partition.partition_number)) by {
            if seen@.to_set().contains(partition.partition_number) {
                assert(seen@.contains(partition.partition_number));
            }
        }
        if duplicate {
            return Err("磁盘布局包含重复分区编号".to_string());
        }
        let (normal, end) = validate_partition(partition, disk_size, previous_end)?;
        out.push(normal);
        proof {
            seen@.lemma_push_to_set_commute(partition.partition_number);
        }
        seen.push(partition.partition_number);
        previous_end = end;
        i = i + 1;
    }
    assert(all.skip(i as int) =~= Seq::<DiskPartition>::empty());
    Ok(out)
}

/// The refusal of one disk, checked after the disks with the numbers `seen`:
/// its number and size, its partition count, its texts, then its partitions
/// in order of offset.
pub open spec fn disk_refusal(d: PartitionDisk, seen: Set<u32>) -> Option<Seq<char>> {
    if seen.contains(d.number) || d.size_bytes == 0 {
        Some("磁盘布局包含重复编号或无效容量"@)
    } else if d.partitions@.len() > MAX_PARTITIONS_PER_DISK {
        Some("单个磁盘的分区数量超过安全上限"@)
    } else if !text_ok(d.friendly_name@) {
        Some(field_message("磁盘名称"@))
    } else if !text_ok(d.partition_style@) {
        Some(field_message("分区样式"@))
    } else if !text_ok(d.bus_type@) {
        Some(field_message("总线类型"@))
    } else if !text_ok(d.health_status@) {
        Some(field_message("磁盘健康状态"@))
    } else if !text_ok(d.operational_status@) {
        Some(field_message("磁盘运行状态"@))
    } else {
        partitions_refusal(by_offset(d.partitions@), d.size_bytes, 0, Set::empty())
    }
}

/// The refusal of a layout whose disks are checked in the given order.
pub open spec fn disks_refusal(ds: Seq<PartitionDisk>, seen: Set<u32>) -> Option<Seq<char>>
    decreases ds.len(),
{
    if ds.len() == 0 {
        None
    } else {
        match disk_refusal(ds[0], seen) {
            Some(message) => Some(message),
            None => disks_refusal(ds.drop_first(), seen.insert(ds[0].number)),
        }
    }
}

/// Whether `q` is `d` with its texts trimmed and its partitions ordered by
/// offset and normalised.
pub open spec fn normalized_disk(d: PartitionDisk, q: PartitionDisk) -> bool {
    &&& q.number == d.number
    &&& q.size_bytes == d.size_bytes
    &&& q.is_boot == d.is_boot && q.is_system == d.is_system
    &&& q.is_offline == d.is_offline && q.is_read_only == d.is_read_only
    &&& q.friendly_name@ == trim(d.friendly_name@)
    &&& q.partition_style@ == trim(d.partition_style@)
    &&& q.bus_type@ == trim(d.bus_type@)
    &&& q.health_status@ == trim(d.health_status@)
    &&& q.operational_status@ == trim(d.operational_status@)
    &&& q.partitions@.len() == d.partitions@.len()
    &&& forall|k: int| 0 <= k < q.partitions@.len() ==> normalized_partition(by_offset(d.partitions@)[k], #[trigger] q.partitions@[k])
}

proof fn lemma_by_offset_len(s: Seq<DiskPartition>)
    ensures
        by_offset(s).len() == s.len(),
    decreases s.len(),
{
    if s.len() > 0 {
        lemma_by_offset_len(s.drop_last());
        lemma_insert_by_offset_len(s.last(), by_offset(s.drop_last()));
    }
}

proof fn lemma_insert_by_offset_len(x: DiskPartition, s: Seq<DiskPartition>)
    ensures
        insert_by_offset(x, s).len() == s.len() + 1,
    decreases s.len(),
{
    if s.len() > 0 {
        lemma_insert_by_offset_len(x, s.drop_first());
    }
}

fn validate_disk(disk: PartitionDisk, seen: &Vec<u32>) -> (r: Result<PartitionDisk, String>)
    ensures
        match r {
            Ok(q) => disk_refusal(disk, seen@.to_set()) is None && normalized_disk(disk, q),
            Err(message) => disk_refusal(disk, seen@.to_set()) == Some(message@),
        },
{
    let mut duplicate = false;
    let mut k: usize = 0;
    while k < seen.len()
        invariant
            0 <= k <= seen@.len(),
            duplicate == exists|j: int| 0 <= j < k && seen@[j] == disk.number,
        decreases seen@.len() - k,
    {
        if seen[k] == disk.number {
            duplicate = true;
        }
        k = k + 1;
    }
    assert(duplicate == seen@.to_set().contains(disk.number)) by {
        if seen@.to_set().contains(disk.number) {
            assert(seen@.contains(disk.number));
        }
    }
    if duplicate || disk.size_bytes == 0 {
        return Err("磁盘布局包含重复编号或无效容量".to_string());
    }
    if disk.partitions.len() > MAX_PARTITIONS_PER_DISK {
        return Err("单个磁盘的分区数量超过安全上限".to_string());
    }
    let friendly_name = validate_text(&disk.friendly_name, "磁盘名称")?;
    let partition_style = validate_text(&disk.partition_style, "分区样式")?;
    let bus_type = validate_text(&disk.bus_type, "总线类型")?;
    let health_status = validate_text(&disk.health_status, "磁盘健康状态")?;
    let operational_status = validate_text(&disk.operational_status, "磁盘运行状态")?;
    let ghost original = disk.partitions@;
    let ordered = sort_partitions(disk.partitions);
    proof {
        lemma_by_offset_len(original);
    }
    let partitions = validate_partitions(ordered, disk.size_bytes)?;
    Ok(PartitionDisk {
        number: disk.number,
        friendly_name,
        partition_style,
        bus_type,
        health_status,
        operational_status,
        size_bytes: disk.size_bytes,
        is_boot: disk.is_boot,
        is_system: disk.is_system,
        is_offline: disk.is_offline,
        is_read_only: disk.is_read_only,
        partitions,
    })
}

/// The refusal for a layout with too many disks.
pub open spec fn too_many_disks_message() -> Seq<char> {
    "磁盘数量超过安全上限"@
}

/// Checks a partition layout and normalises it: disks ordered by number and
/// partitions by offset, texts trimmed, drive letters upper-cased. Refuses
/// too many disks or partitions, repeated numbers, empty disks or
/// partitions, overlapping or out-of-range partitions, volumes reporting
/// more free space than they hold, and bad texts or drive letters.
pub fn validate_partition_layout(disks: Vec<PartitionDisk>) -> (r: Result<Vec<PartitionDisk>, String>)
    ensures
        disks@.len() > MAX_DISKS ==> (r matches Err(message) && message@ == too_many_disks_message()),
        disks@.len() <= MAX_DISKS ==> match r {
            Ok(out) => disks_refusal(by_number(disks@), Set::empty()) is None
                && out@.len() == disks@.len()
                && forall|k: int| 0 <= k < out@.len() ==> normalized_disk(by_number(disks@)[k], #[trigger] out@[k]),
            Err(message) => disks_refusal(by_number(disks@), Set::empty()) == Some(message@),
        },
{
    if disks.len() > MAX_DISKS {
        return Err("磁盘数量超过安全上限".to_string());
    }
    let ghost input = disks@;
    let ordered = sort_disks(disks);
    proof {
        lemma_by_number_len(input);
    }
    let ghost all = ordered@;
    let mut rest = ordered;
    let mut out: Vec<PartitionDisk> = Vec::new();
    let mut seen: Vec<u32> = Vec::new();
    assert(seen@.to_set() =~= Set::<u32>::empty());
    assert(all.skip(0) =~= all);
    while rest.len() > 0
        invariant
            input == disks@,
            input.len() <= MAX_DISKS,
            all == by_number(input),
            all.len() == input.len(),
            out@.len() + rest@.len() == all.len(),
            rest@ == all.skip(out@.len() as int),
            forall|k: int| 0 <= k < out@.len() ==> normalized_disk(all[k], #[trigger] out@[k]),
            disks_refusal(all, Set::empty()) == disks_refusal(rest@, seen@.to_set()),
        decreases rest@.len(),
    {
        let ghost before = rest@;
        let disk = rest.remove(0);
        let number = disk.number;
        assert(before[0] == disk);
        assert(before.drop_first() =~= rest@);
        assert(all[out@.len() as int] == disk);
        let normal = validate_disk(disk, &seen)?;
        proof {
            seen@.lemma_push_to_set_commute(number);
            assert(rest@ =~= all.skip((out@.len() + 1) as int));
        }
        seen.push(number);
        out.push(normal);
    }
    Ok(out)
}

proof fn lemma_by_number_len(s: Seq<PartitionDisk>)
    ensures
        by_number(s).len() == s.len(),
    decreases s.len(),
{
    if s.len() > 0 {
        lemma_by_number_len(s.drop_last());
        lemma_insert_by_number_len(s.last(), by_number(s.drop_last()));
    }
}

proof fn lemma_insert_by_number_len(x: PartitionDisk, s: Seq<PartitionDisk>)
    ensures
        insert_by_number(x, s).len() == s.len() + 1,
    decreases s.len(),
{
    if s.len() > 0 {
        lemma_insert_by_number_len(x, s.drop_first());
    }
}

/// The refusal for layout bytes that are empty or larger than 4 MiB.
pub fn check_layout_size(byte_count: usize) -> (r: Result<(), String>)
    ensures
        r is Ok <==> (0 < byte_count <= MAX_LAYOUT_JSON_BYTES),
        r matches Err(message) ==> message@ == "Windows 返回的磁盘布局数据为空或过大"@,
{
    if byte_count == 0 || byte_count > MAX_LAYOUT_JSON_BYTES {
        return Err("Windows 返回的磁盘布局数据为空或过大".to_string());
    }
    Ok(())
}

} // verus!
