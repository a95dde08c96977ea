//! The two tables behind the server, and the changes that requests make to
//! them.
//!
//! A request handler never writes to the database itself: it returns a list of
//! `Change`s. `statement` gives the SQL of each, and `Store::after` says what
//! it does to the tables.

use vstd::prelude::*;

verus! {

/// The tables, created where they are not there yet.
pub const SCHEMA: &'static str = "
PRAGMA foreign_keys = ON;
CREATE TABLE IF NOT EXISTS ClipboardItem (
  id TEXT PRIMARY KEY NOT NULL,
  type TEXT NOT NULL,
  content TEXT,
  fileName TEXT,
  fileSize INTEGER,
  sortWeight INTEGER NOT NULL DEFAULT 0,
  contentType TEXT,
  inlineData BLOB,
  filePath TEXT,
  createdAt INTEGER NOT NULL DEFAULT (unixepoch()),
  updatedAt INTEGER NOT NULL DEFAULT (unixepoch())
);
CREATE INDEX IF NOT EXISTS clipboard_created_idx ON ClipboardItem (createdAt, id);

CREATE TABLE IF NOT EXISTS ShareLink (
  token TEXT PRIMARY KEY NOT NULL,
  itemId TEXT NOT NULL,
  expiresAt INTEGER,
  maxDownloads INTEGER,
  downloadCount INTEGER NOT NULL DEFAULT 0,
  revoked INTEGER NOT NULL DEFAULT 0,
  passwordHash TEXT,
  createdAt INTEGER NOT NULL DEFAULT (unixepoch()),
  updatedAt INTEGER NOT NULL DEFAULT (unixepoch()),
  CONSTRAINT share_item_fk FOREIGN KEY (itemId) REFERENCES ClipboardItem(id) ON DELETE CASCADE
);
CREATE INDEX IF NOT EXISTS share_item_idx ON ShareLink (itemId);
CREATE INDEX IF NOT EXISTS share_created_idx ON ShareLink (createdAt);
";

/// What shows whether the link table has a column for the password text: the
/// statement is refused where it has none.
pub const PASSWORD_COLUMN_PROBE: &'static str = "SELECT passwordPlain FROM ShareLink LIMIT 1";

/// What is to be run on a database that was made before links kept the text of
/// their password.
pub open spec fn migration_of(has_password_column: bool) -> Option<Seq<char>> {
    if has_password_column {
        None
    } else {
        Some("ALTER TABLE ShareLink ADD COLUMN passwordPlain TEXT"@)
    }
}

/// What is to be run on a database, by whether its link table has a column for
/// the password text.
pub fn migration(has_password_column: bool) -> (r: Option<&'static str>)
    ensures
        r.deep_view() == migration_of(has_password_column),
{
    if has_password_column {
        None
    } else {
        Some("ALTER TABLE ShareLink ADD COLUMN passwordPlain TEXT")
    }
}

/// A value bound to a parameter of an SQL statement.
#[derive(Debug)]
pub enum SqlValue {
    Null,
    Integer(i64),
    Text(String),
    Blob(Vec<u8>),
}

/// `SqlValue` as a mathematical value.
pub enum SqlView {
    Null,
    Integer(i64),
    Text(Seq<char>),
    Blob(Seq<u8>),
}

impl DeepView for SqlValue {
    type V = SqlView;

    open spec fn deep_view(&self) -> SqlView {
        match self {
            SqlValue::Null => SqlView::Null,
            SqlValue::Integer(n) => SqlView::Integer(*n),
            SqlValue::Text(s) => SqlView::Text(s@),
            SqlValue::Blob(b) => SqlView::Blob(b@),
        }
    }
}

/// An SQL statement with the values of its parameters, in their order.
#[derive(Debug)]
pub struct Statement {
    pub sql: String,
    pub params: Vec<SqlValue>,
}

/// `Statement` as a mathematical value.
pub struct StatementView {
    pub sql: Seq<char>,
    pub params: Seq<SqlView>,
}

impl DeepView for Statement {
    type V = StatementView;

    open spec fn deep_view(&self) -> StatementView {
        StatementView { sql: self.sql@, params: self.params.deep_view() }
    }
}

pub open spec fn sql_int(v: Option<i64>) -> SqlView {
    match v {
        Some(n) => SqlView::Integer(n),
        None => SqlView::Null,
    }
}

pub open spec fn sql_text(v: Option<Seq<char>>) -> SqlView {
    match v {
        Some(s) => SqlView::Text(s),
        None => SqlView::Null,
    }
}

pub open spec fn sql_blob(v: Option<Seq<u8>>) -> SqlView {
    match v {
        Some(b) => SqlView::Blob(b),
        None => SqlView::Null,
    }
}

fn int_or_null(v: Option<i64>) -> (r: SqlValue)
    ensures
        r.deep_view() == sql_int(v),
{
    match v {
        Some(n) => SqlValue::Integer(n),
        None => SqlValue::Null,
    }
}

fn text_or_null(v: Option<String>) -> (r: SqlValue)
    ensures
        r.deep_view() == sql_text(v.deep_view()),
{
    match v {
        Some(s) => SqlValue::Text(s),
        None => SqlValue::Null,
    }
}

fn blob_or_null(v: Option<Vec<u8>>) -> (r: SqlValue)
    ensures
        r.deep_view() == sql_blob(opt_bytes(v)),
{
    match v {
        Some(b) => SqlValue::Blob(b),
        None => SqlValue::Null,
    }
}

pub open spec fn opt_bytes(v: Option<Vec<u8>>) -> Option<Seq<u8>> {
    match v {
        Some(b) => Some(b@),
        None => None,
    }
}

/// A clipboard item as it is first written.
#[derive(Debug)]
pub struct NewItem {
    pub id: String,
    pub item_type: String,
    pub content: Option<String>,
    pub file_name: Option<String>,
    pub file_size: Option<i64>,
    pub sort_weight: i64,
    pub content_type: Option<String>,
    pub inline_data: Option<Vec<u8>>,
    pub file_path: Option<String>,
    pub now: i64,
}

/// A share link as it is first written.
#[derive(Debug)]
pub struct NewLink {
    pub token: String,
    pub item_id: String,
    pub expires_at: Option<i64>,
    pub max_downloads: Option<i64>,
    pub password_hash: Option<String>,
    pub password_plain: Option<String>,
    pub now: i64,
}

/// What a request for new settings leaves in a share link.
#[derive(Debug)]
pub struct LinkSettings {
    pub expires_at: Option<i64>,
    pub max_downloads: Option<i64>,
    pub password_hash: Option<String>,
    pub password_plain: Option<String>,
    pub now: i64,
}

/// One change to the tables.
#[derive(Debug)]
pub enum Change {
    /// A new item.
    InsertItem(NewItem),
    /// A new link with settings of its own.
    InsertLink(NewLink),
    /// A new link without limits and without a password.
    ProvisionLink { token: String, item_id: String, now: i64 },
    /// One more access through a link.
    CountAccess { token: String, now: i64 },
    /// An item goes, and every link to it.
    DeleteItem { id: String },
    /// Every link to an item is switched off.
    RevokeLinks { item_id: String, now: i64 },
    /// A link gets new settings.
    UpdateLink { token: String, settings: LinkSettings },
    /// A link gets new settings and another token.
    ReplaceLink { old_token: String, token: String, settings: LinkSettings },
    /// An item moves in the listing.
    SetWeight { id: String, weight: i64, now: i64 },
}

/// A row of the item table.
pub struct ItemView {
    pub item_type: Seq<char>,
    pub content: Option<Seq<char>>,
    pub file_name: Option<Seq<char>>,
    pub file_size: Option<i64>,
    pub sort_weight: i64,
    pub content_type: Option<Seq<char>>,
    pub inline_data: Option<Seq<u8>>,
    pub file_path: Option<Seq<char>>,
    pub created_at: i64,
    pub updated_at: i64,
}

/// A row of the link table.
pub struct LinkView {
    pub item_id: Seq<char>,
    pub expires_at: Option<i64>,
    pub max_downloads: Option<i64>,
    pub download_count: int,
    pub revoked: int,
    pub password_hash: Option<Seq<char>>,
    pub password_plain: Option<Seq<char>>,
    pub created_at: i64,
    pub updated_at: i64,
}

/// `LinkSettings` as a mathematical value.
pub struct SettingsView {
    pub expires_at: Option<i64>,
    pub max_downloads: Option<i64>,
    pub password_hash: Option<Seq<char>>,
    pub password_plain: Option<Seq<char>>,
    pub now: i64,
}

/// `Change` as a mathematical value.
pub enum ChangeView {
    InsertItem { id: Seq<char>, item: ItemView },
    InsertLink { token: Seq<char>, link: LinkView },
    ProvisionLink { token: Seq<char>, item_id: Seq<char>, now: i64 },
    CountAccess { token: Seq<char>, now: i64 },
    DeleteItem { id: Seq<char> },
    RevokeLinks { item_id: Seq<char>, now: i64 },
    UpdateLink { token: Seq<char>, settings: SettingsView },
    ReplaceLink { old_token: Seq<char>, token: Seq<char>, settings: SettingsView },
    SetWeight { id: Seq<char>, weight: i64, now: i64 },
}

impl DeepView for LinkSettings {
    type V = SettingsView;

    open spec fn deep_view(&self) -> SettingsView {
        SettingsView {
            expires_at: self.expires_at,
            max_downloads: self.max_downloads,
            password_hash: self.password_hash.deep_view(),
            password_plain: self.password_plain.deep_view(),
            now: self.now,
        }
    }
}

impl DeepView for NewItem {
    type V = ItemView;

    open spec fn deep_view(&self) -> ItemView {
        ItemView {
            item_type: self.item_type@,
            content: self.content.deep_view(),
            file_name: self.file_name.deep_view(),
            file_size: self.file_size,
            sort_weight: self.sort_weight,
            content_type: self.content_type.deep_view(),
            inline_data: opt_bytes(self.inline_data),
            file_path: self.file_path.deep_view(),
            created_at: self.now,
            updated_at: self.now,
        }
    }
}

impl DeepView for NewLink {
    type V = LinkView;

    open spec fn deep_view(&self) -> LinkView {
        LinkView {
            item_id: self.item_id@,
            expires_at: self.expires_at,
            max_downloads: self.max_downloads,
            download_count: 0,
            revoked: 0,
            password_hash: self.password_hash.deep_view(),
            password_plain: self.password_plain.deep_view(),
            created_at: self.now,
            updated_at: self.now,
        }
    }
}

impl DeepView for Change {
    type V = ChangeView;

    open spec fn deep_view(&self) -> ChangeView {
        match self {
            Change::InsertItem(item) => ChangeView::InsertItem {
                id: item.id@,
                item: item.deep_view(),
            },
            Change::InsertLink(link) => ChangeView::InsertLink {
                token: link.token@,
                link: link.deep_view(),
            },
            Change::ProvisionLink { token, item_id, now } => ChangeView::ProvisionLink {
                token: token@,
                item_id: item_id@,
                now: *now,
            },
            Change::CountAccess { token, now } => ChangeView::CountAccess {
                token: token@,
                now: *now,
            },
            Change::DeleteItem { id } => ChangeView::DeleteItem { id: id@ },
            Change::RevokeLinks { item_id, now } => ChangeView::RevokeLinks {
                item_id: item_id@,
                now: *now,
            },
            Change::UpdateLink { token, settings } => ChangeView::UpdateLink {
                token: token@,
                settings: settings.deep_view(),
            },
            Change::ReplaceLink { old_token, token, settings } => ChangeView::ReplaceLink {
                old_token: old_token@,
                token: token@,
                settings: settings.deep_view(),
            },
            Change::SetWeight { id, weight, now } => ChangeView::SetWeight {
                id: id@,
                weight: *weight,
                now: *now,
            },
        }
    }
}

/// The SQL of a change.
pub open spec fn statement_of(c: ChangeView) -> StatementView {
    match c {
        ChangeView::InsertItem { id, item } => StatementView {
            sql: "INSERT INTO ClipboardItem (id,type,content,fileName,fileSize,sortWeight,contentType,inlineData,filePath,createdAt,updatedAt) VALUES (?,?,?,?,?,?,?, ?, ?, ?, ?)"@,
            params: seq![
                SqlView::Text(id),
                SqlView::Text(item.item_type),
                sql_text(item.content),
                sql_text(item.file_name),
                sql_int(item.file_size),
                SqlView::Integer(item.sort_weight),
                sql_text(item.content_type),
                sql_blob(item.inline_data),
                sql_text(item.file_path),
                SqlView::Integer(item.created_at),
                SqlView::Integer(item.updated_at),
            ],
        },
        ChangeView::InsertLink { token, link } => StatementView {
            sql: "INSERT INTO ShareLink (token,itemId,expiresAt,maxDownloads,downloadCount,revoked,passwordHash,passwordPlain,createdAt,updatedAt) VALUES (?,?,?,?,0,0,?,?,?,?)"@,
            params: seq![
                SqlView::Text(token),
                SqlView::Text(link.item_id),
                sql_int(link.expires_at),
                sql_int(link.max_downloads),
                sql_text(link.password_hash),
                sql_text(link.password_plain),
                SqlView::Integer(link.created_at),
                SqlView::Integer(link.updated_at),
            ],
        },
        ChangeView::ProvisionLink { token, item_id, now } => StatementView {
            sql: "INSERT INTO ShareLink (token,itemId,expiresAt,maxDownloads,downloadCount,revoked,passwordHash,createdAt,updatedAt) VALUES (?,?,?,?,0,0,?,?,?)"@,
            params: seq![
                SqlView::Text(token),
                SqlView::Text(item_id),
                SqlView::Null,
                SqlView::Null,
                SqlView::Null,
                SqlView::Integer(now),
                SqlView::Integer(now),
            ],
        },
        ChangeView::CountAccess { token, now } => StatementView {
            sql: "UPDATE ShareLink SET downloadCount=downloadCount+1, updatedAt=? WHERE token=?"@,
            params: seq![SqlView::Integer(now), SqlView::Text(token)],
        },
        ChangeView::DeleteItem { id } => StatementView {
            sql: "DELETE FROM ClipboardItem WHERE id=?"@,
            params: seq![SqlView::Text(id)],
        },
        ChangeView::RevokeLinks { item_id, now } => StatementView {
            sql: "UPDATE ShareLink SET revoked=1, updatedAt=? WHERE itemId=? AND revoked=0"@,
            params: seq![SqlView::Integer(now), SqlView::Text(item_id)],
        },
        ChangeView::UpdateLink { token, settings } => StatementView {
            sql: "UPDATE ShareLink SET expiresAt=?, maxDownloads=?, passwordHash=?, passwordPlain=?, updatedAt=? WHERE token=?"@,
            params: seq![
                sql_int(settings.expires_at),
                sql_int(settings.max_downloads),
                sql_text(settings.password_hash),
                sql_text(settings.password_plain),
                SqlView::Integer(settings.now),
                SqlView::Text(token),
            ],
        },
        ChangeView::ReplaceLink { old_token, token, settings } => StatementView {
            sql: "UPDATE ShareLink SET token=?, expiresAt=?, maxDownloads=?, passwordHash=?, passwordPlain=?, updatedAt=? WHERE token=?"@,
            params: seq![
                SqlView::Text(token),
                sql_int(settings.expires_at),
                sql_int(settings.max_downloads),
                sql_text(settings.password_hash),
                sql_text(settings.password_plain),
                SqlView::Integer(settings.now),
                SqlView::Text(old_token),
            ],
        },
        ChangeView::SetWeight { id, weight, now } => StatementView {
            sql: "UPDATE ClipboardItem SET sortWeight=?, updatedAt=? WHERE id=?"@,
            params: seq![
                SqlView::Integer(weight),
                SqlView::Integer(now),
                SqlView::Text(id),
            ],
        },
    }
}

/// The SQL of a change.
pub fn statement(change: Change) -> (r: Statement)
    ensures
        r.deep_view() == statement_of(change.deep_view()),
{
    let ghost view = change.deep_view();
    let mut params: Vec<SqlValue> = Vec::new();
    let sql: &str;
    match change {
        Change::InsertItem(item) => {
            sql = "INSERT INTO ClipboardItem (id,type,content,fileName,fileSize,sortWeight,contentType,inlineData,filePath,createdAt,updatedAt) VALUES (?,?,?,?,?,?,?, ?, ?, ?, ?)";
            params.push(SqlValue::Text(item.id));
            params.push(SqlValue::Text(item.item_type));
            params.push(text_or_null(item.content));
            params.push(text_or_null(item.file_name));
            params.push(int_or_null(item.file_size));
            params.push(SqlValue::Integer(item.sort_weight));
            params.push(text_or_null(item.content_type));
            params.push(blob_or_null(item.inline_data));
            params.push(text_or_null(item.file_path));
            params.push(SqlValue::Integer(item.now));
            params.push(SqlValue::Integer(item.now));
        },
        Change::InsertLink(link) => {
            sql = "INSERT INTO ShareLink (token,itemId,expiresAt,maxDownloads,downloadCount,revoked,passwordHash,passwordPlain,createdAt,updatedAt) VALUES (?,?,?,?,0,0,?,?,?,?)";
            params.push(SqlValue::Text(link.token));
            params.push(SqlValue::Text(link.item_id));
            params.push(int_or_null(link.expires_at));
            params.push(int_or_null(link.max_downloads));
            params.push(text_or_null(link.password_hash));
            params.push(text_or_null(link.password_plain));
            params.push(SqlValue::Integer(link.now));
            params.push(SqlValue::Integer(link.now));
        },
        Change::ProvisionLink { token, item_id, now } => {
            sql = "INSERT INTO ShareLink (token,itemId,expiresAt,maxDownloads,downloadCount,revoked,passwordHash,createdAt,updatedAt) VALUES (?,?,?,?,0,0,?,?,?)";
            params.push(SqlValue::Text(token));
            params.push(SqlValue::Text(item_id));
            params.push(SqlValue::Null);
            params.push(SqlValue::Null);
            params.push(SqlValue::Null);
            params.push(SqlValue::Integer(now));
            params.push(SqlValue::Integer(now));
        },
        Change::CountAccess { token, now } => {
            sql = "UPDATE ShareLink SET downloadCount=downloadCount+1, updatedAt=? WHERE token=?";
            params.push(SqlValue::Integer(now));
            params.push(SqlValue::Text(token));
        },
        Change::DeleteItem { id } => {
            sql = "DELETE FROM ClipboardItem WHERE id=?";
            params.push(SqlValue::Text(id));
        },
        Change::RevokeLinks { item_id, now } => {
            sql = "UPDATE ShareLink SET revoked=1, updatedAt=? WHERE itemId=? AND revoked=0";
            params.push(SqlValue::Integer(now));
            params.push(SqlValue::Text(item_id));
        },
        Change::UpdateLink { token, settings } => {
            sql = "UPDATE ShareLink SET expiresAt=?, maxDownloads=?, passwordHash=?, passwordPlain=?, updatedAt=? WHERE token=?";
            params.push(int_or_null(settings.expires_at));
            params.push(int_or_null(settings.max_downloads));
            params.push(text_or_null(settings.password_hash));
            params.push(text_or_null(settings.password_plain));
            params.push(SqlValue::Integer(settings.now));
            params.push(SqlValue::Text(token));
        },
        Change::ReplaceLink { old_token, token, settings } => {
            sql = "UPDATE ShareLink SET token=?, expiresAt=?, maxDownloads=?, passwordHash=?, passwordPlain=?, updatedAt=? WHERE token=?";
            params.push(SqlValue::Text(token));
            params.push(int_or_null(settings.expires_at));
            params.push(int_or_null(settings.max_downloads));
            params.push(text_or_null(settings.password_hash));
            params.push(text_or_null(settings.password_plain));
            params.push(SqlValue::Integer(settings.now));
            params.push(SqlValue::Text(old_token));
        },
        Change::SetWeight { id, weight, now } => {
            sql = "UPDATE ClipboardItem SET sortWeight=?, updatedAt=? WHERE id=?";
            params.push(SqlValue::Integer(weight));
            params.push(SqlValue::Integer(now));
            params.push(SqlValue::Text(id));
        },
    }
    assert(params.deep_view() =~= statement_of(view).params);
    Statement { sql: sql.to_owned(), params }
}

/// The contents of the two tables, by their primary keys.
#[verifier::ext_equal]
pub struct Store {
    pub items: Map<Seq<char>, ItemView>,
    pub links: Map<Seq<char>, LinkView>,
}

impl LinkView {
    /// A link without limits and without a password.
    pub open spec fn unlimited(item_id: Seq<char>, now: i64) -> LinkView {
        LinkView {
            item_id,
            expires_at: None,
            max_downloads: None,
            download_count: 0,
            revoked: 0,
            password_hash: None,
            password_plain: None,
            created_at: now,
            updated_at: now,
        }
    }

    /// The link with other settings.
    pub open spec fn with_settings(self, settings: SettingsView) -> LinkView {
        LinkView {
            expires_at: settings.expires_at,
            max_downloads: settings.max_downloads,
            password_hash: settings.password_hash,
            password_plain: settings.password_plain,
            updated_at: settings.now,
            ..self
        }
    }

    /// The link after one more access.
    pub open spec fn accessed(self, now: i64) -> LinkView {
        LinkView { download_count: self.download_count + 1, updated_at: now, ..self }
    }

    /// The link, switched off if it was on.
    pub open spec fn switched_off(self, now: i64) -> LinkView {
        if self.revoked == 0 {
            LinkView { revoked: 1, updated_at: now, ..self }
        } else {
            self
        }
    }
}

impl Store {
    /// Every link is to an item that is there.
    pub open spec fn well_formed(self) -> bool {
        forall|t: Seq<char>| #[trigger]
            self.links.contains_key(t) ==> self.items.contains_key(self.links[t].item_id)
    }

    /// The tables with one more link, unless its token is taken or its item is
    /// not there.
    pub open spec fn with_link(self, token: Seq<char>, link: LinkView) -> Store {
        if self.links.contains_key(token) || !self.items.contains_key(link.item_id) {
            self
        } else {
            Store { links: self.links.insert(token, link), ..self }
        }
    }

    /// The tables after a change. A change that the database refuses, or that
    /// concerns no row, leaves them as they are.
    pub open spec fn after(self, c: ChangeView) -> Store {
        match c {
            ChangeView::InsertItem { id, item } => if self.items.contains_key(id) {
                self
            } else {
                Store { items: self.items.insert(id, item), ..self }
            },
            ChangeView::InsertLink { token, link } => self.with_link(token, link),
            ChangeView::ProvisionLink { token, item_id, now } => self.with_link(
                token,
                LinkView::unlimited(item_id, now),
            ),
            ChangeView::CountAccess { token, now } => if self.links.contains_key(token) {
                Store { links: self.links.insert(token, self.links[token].accessed(now)), ..self }
            } else {
                self
            },
            ChangeView::DeleteItem { id } => Store {
                items: self.items.remove(id),
                links: Map::new(
                    |t: Seq<char>| self.links.contains_key(t) && self.links[t].item_id != id,
                    |t: Seq<char>| self.links[t],
                ),
            },
            ChangeView::RevokeLinks { item_id, now } => Store {
                links: Map::new(
                    |t: Seq<char>| self.links.contains_key(t),
                    |t: Seq<char>|
                        if self.links[t].item_id == item_id {
                            self.links[t].switched_off(now)
                        } else {
                            self.links[t]
                        },
                ),
                ..self
            },
            ChangeView::UpdateLink { token, settings } => if self.links.contains_key(token) {
                Store {
                    links: self.links.insert(token, self.links[token].with_settings(settings)),
                    ..self
                }
            } else {
                self
            },
            ChangeView::ReplaceLink { old_token, token, settings } => if self.links.contains_key(
                old_token,
            ) && (token == old_token || !self.links.contains_key(token)) {
                Store {
                    links: self.links.remove(old_token).insert(
                        token,
                        self.links[old_token].with_settings(settings),
                    ),
                    ..self
                }
            } else {
                self
            },
            ChangeView::SetWeight { id, weight, now } => if self.items.contains_key(id) {
                Store {
                    items: self.items.insert(
                        id,
                        ItemView { sort_weight: weight, updated_at: now, ..self.items[id] },
                    ),
                    ..self
                }
            } else {
                self
            },
        }
    }

    /// The tables after several changes, one after the other.
    pub open spec fn after_all(self, cs: Seq<ChangeView>) -> Store
        decreases cs.len(),
    {
        if cs.len() == 0 {
            self
        } else {
            self.after_all(cs.drop_last()).after(cs.last())
        }
    }
}

/// No change leaves a link without its item.
pub proof fn changes_keep_links_to_items(s: Store, c: ChangeView)
    requires
        s.well_formed(),
    ensures
        s.after(c).well_formed(),
{
    let t2 = s.after(c);
    assert forall|t: Seq<char>| #[trigger] t2.links.contains_key(t) implies t2.items.contains_key(
        t2.links[t].item_id,
    ) by {
        match c {
            ChangeView::ReplaceLink { old_token, token, .. } => {
                if t == token && s.links.contains_key(old_token) {
                    assert(s.items.contains_key(s.links[old_token].item_id));
                }
                if s.links.contains_key(t) {
                    assert(s.items.contains_key(s.links[t].item_id));
                }
            },
            _ => {
                if s.links.contains_key(t) {
                    assert(s.items.contains_key(s.links[t].item_id));
                }
            },
        }
    }
}

/// No number of changes leaves a link without its item.
pub proof fn all_changes_keep_links_to_items(s: Store, cs: Seq<ChangeView>)
    requires
        s.well_formed(),
    ensures
        s.after_all(cs).well_formed(),
    decreases cs.len(),
{
    if cs.len() > 0 {
        all_changes_keep_links_to_items(s, cs.drop_last());
        changes_keep_links_to_items(s.after_all(cs.drop_last()), cs.last());
    }
}

/// A deleted item is gone, and every link to it; everything else stays.
pub proof fn deletion_takes_the_links(s: Store, id: Seq<char>)
    ensures
        ({
            let after = s.after(ChangeView::DeleteItem { id });
            &&& !after.items.contains_key(id)
            &&& forall|t: Seq<char>| #[trigger]
                after.links.contains_key(t) <==> s.links.contains_key(t) && s.links[t].item_id
                    != id
            &&& forall|t: Seq<char>| #[trigger]
                after.links.contains_key(t) ==> after.links[t] == s.links[t]
            &&& forall|i: Seq<char>|
                i != id ==> (#[trigger] after.items.contains_key(i) <==> s.items.contains_key(i))
                    && after.items[i] == s.items[i]
        }),
{
}

/// A list of one change is that change.
pub proof fn lemma_after_one(s: Store, c: ChangeView)
    ensures
        s.after_all(seq![c]) == s.after(c),
{
    assert(seq![c].drop_last() =~= Seq::<ChangeView>::empty());
    assert(s.after_all(Seq::<ChangeView>::empty()) == s);
}

/// A list of two changes is the one and then the other.
pub proof fn lemma_after_two(s: Store, a: ChangeView, b: ChangeView)
    ensures
        s.after_all(seq![a, b]) == s.after(a).after(b),
{
    assert(seq![a, b].drop_last() =~= seq![a]);
    lemma_after_one(s, a);
}

/// A link that a change leaves in place stays with its item, was not used less
/// often than before, and is not switched on again.
pub proof fn changes_keep_the_use_of_links(s: Store, c: ChangeView, token: Seq<char>)
    requires
        s.links.contains_key(token),
        s.after(c).links.contains_key(token),
    ensures
        s.after(c).links[token].item_id == s.links[token].item_id,
        s.after(c).links[token].download_count >= s.links[token].download_count,
        s.links[token].revoked != 0 ==> s.after(c).links[token].revoked != 0,
{
}

/// A database: what of the schema is there, and what the tables hold.
#[verifier::ext_equal]
pub struct Database {
    /// The two tables are there.
    pub has_tables: bool,
    /// The link table has a column for the password text.
    pub has_password_column: bool,
    /// The connection enforces that links are to items that are there.
    pub foreign_keys: bool,
    pub store: Store,
}

impl Database {
    /// A database of which nothing has been made: the file is missing or empty.
    pub open spec fn blank() -> Database {
        Database {
            has_tables: false,
            has_password_column: false,
            foreign_keys: false,
            store: Store { items: Map::empty(), links: Map::empty() },
        }
    }

    /// No rows without tables, no password text without the column for it, and
    /// no link without its item.
    pub open spec fn well_formed(self) -> bool {
        &&& !self.has_tables ==> !self.has_password_column && self.store == Database::blank().store
        &&& !self.has_password_column ==> forall|t: Seq<char>| #[trigger]
            self.store.links.contains_key(t) ==> self.store.links[t].password_plain is None
        &&& self.store.well_formed()
    }

    /// The database after `SCHEMA` was run: tables are made where there are none,
    /// without the column for the password text.
    pub open spec fn after_schema(self) -> Database {
        Database { has_tables: true, foreign_keys: true, ..self }
    }

    /// The database after the statement that `migration` gave: the new column
    /// holds nothing for the rows that are there.
    pub open spec fn after_migration(self, sql: Option<Seq<char>>) -> Database {
        match sql {
            Some(_) => Database { has_password_column: true, ..self },
            None => self,
        }
    }

    /// The database once it was opened: the schema is run, the probe shows
    /// whether the column is there, and what is missing is added.
    pub open spec fn opened(self) -> Database {
        let made = self.after_schema();
        made.after_migration(migration_of(made.has_password_column))
    }

    /// The database once its connection was closed.
    pub open spec fn closed(self) -> Database {
        Database { foreign_keys: false, ..self }
    }
}

/// Opening a database makes what is missing and loses nothing: afterwards the
/// tables are there, with the column for the password text, links are kept to
/// their items, and every row is as it was.
pub proof fn opening_keeps_the_rows(db: Database)
    requires
        db.well_formed(),
    ensures
        Database::blank().well_formed(),
        db.opened().well_formed(),
        db.opened().has_tables,
        db.opened().has_password_column,
        db.opened().foreign_keys,
        db.opened().store == db.store,
{
}

/// Opening a database again changes nothing, whether it was closed in between or
/// not: schema and rows are those of the first time.
pub proof fn opening_again_changes_nothing(db: Database)
    requires
        db.well_formed(),
    ensures
        db.opened().opened() == db.opened(),
        db.opened().closed().opened() == db.opened(),
{
}

/// What a request changed is still there when the database is opened the next
/// time.
pub proof fn changes_outlast_the_connection(db: Database, cs: Seq<ChangeView>)
    requires
        db.well_formed(),
    ensures
        ({
            let changed = Database { store: db.opened().store.after_all(cs), ..db.opened() };
            &&& changed.well_formed()
            &&& changed.closed().opened() == changed
        }),
{
    all_changes_keep_links_to_items(db.opened().store, cs);
}

} // verus!
