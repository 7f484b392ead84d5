//! The federated-learning helper of the workspace editor: the model
//! presets it describes, the settings it keeps in range, and the training
//! script it generates.

use vstd::prelude::*;
use crate::text::{chars_of, decimal, extend_chars, push_decimal, str_is, string_of};

verus! {

// ---------------------------------------------------------------------------
// Model presets
// ---------------------------------------------------------------------------

/// A summary of a model preset: its name, its parameter count and its layers
/// with their output sizes.
pub struct ModelInfo {
    pub name: &'static str,
    pub params: &'static str,
    pub layers: Vec<(&'static str, &'static str)>,
}

/// The views of a layer list.
pub open spec fn layer_views(v: Seq<(&'static str, &'static str)>) -> Seq<(Seq<char>, Seq<char>)> {
    v.map_values(|l: (&'static str, &'static str)| (l.0@, l.1@))
}

/// The summary of the preset named `preset`; any unknown name is the MLP.
pub open spec fn model_info_of(preset: Seq<char>) -> (Seq<char>, Seq<char>, Seq<(Seq<char>, Seq<char>)>) {
    if preset == "cnn"@ {
        ("CNN (LeNet-style)"@, "~62 K"@, seq![("Conv2d(1→32, 3×3)"@, "30×30"@), ("ReLU + MaxPool2d(2)"@, "15×15"@), ("Conv2d(32→64, 3×3)"@, "13×13"@), ("ReLU + MaxPool2d(2)"@, "6×6"@), ("Flatten"@, "2304"@), ("Linear(2304→128)"@, "128"@), ("ReLU"@, "128"@), ("Linear(128→10)"@, "10"@)])
    } else if preset == "resnet"@ {
        ("ResNet-18 (Mini)"@, "~270 K"@, seq![("Conv2d(1→16, 3×3)+BN"@, "32×32"@), ("ResBlock(16→16) ×2"@, "32×32"@), ("ResBlock(16→32) ×2"@, "16×16"@), ("ResBlock(32→64) ×2"@, "8×8"@), ("AdaptiveAvgPool2d(1)"@, "1×1"@), ("Linear(64→10)"@, "10"@)])
    } else {
        ("MLP (Multi-Layer Perceptron)"@, "~120 K"@, seq![("Linear(784→256)"@, "256"@), ("ReLU"@, "256"@), ("Linear(256→128)"@, "128"@), ("ReLU"@, "128"@), ("Linear(128→10)"@, "10"@)])
    }
}

/// The summary of a model preset (`cnn`, `resnet`, or else the MLP).
pub fn get_model_info(preset: &str) -> (m: ModelInfo)
    ensures
        (m.name@, m.params@, layer_views(m.layers@)) == model_info_of(preset@),
{
    if str_is(preset, "cnn") {
        let mut layers: Vec<(&'static str, &'static str)> = Vec::new();
        layers.push(("Conv2d(1→32, 3×3)", "30×30"));
        layers.push(("ReLU + MaxPool2d(2)", "15×15"));
        layers.push(("Conv2d(32→64, 3×3)", "13×13"));
        layers.push(("ReLU + MaxPool2d(2)", "6×6"));
        layers.push(("Flatten", "2304"));
        layers.push(("Linear(2304→128)", "128"));
        layers.push(("ReLU", "128"));
        layers.push(("Linear(128→10)", "10"));
        assert(layer_views(layers@) =~= seq![("Conv2d(1→32, 3×3)"@, "30×30"@), ("ReLU + MaxPool2d(2)"@, "15×15"@), ("Conv2d(32→64, 3×3)"@, "13×13"@), ("ReLU + MaxPool2d(2)"@, "6×6"@), ("Flatten"@, "2304"@), ("Linear(2304→128)"@, "128"@), ("ReLU"@, "128"@), ("Linear(128→10)"@, "10"@)]);
        ModelInfo { name: "CNN (LeNet-style)", params: "~62 K", layers }
    } else if str_is(preset, "resnet") {
        let mut layers: Vec<(&'static str, &'static str)> = Vec::new();
        layers.push(("Conv2d(1→16, 3×3)+BN", "32×32"));
        layers.push(("ResBlock(16→16) ×2", "32×32"));
        layers.push(("ResBlock(16→32) ×2", "16×16"));
        layers.push(("ResBlock(32→64) ×2", "8×8"));
        layers.push(("AdaptiveAvgPool2d(1)", "1×1"));
        layers.push(("Linear(64→10)", "10"));
        assert(layer_views(layers@) =~= seq![("Conv2d(1→16, 3×3)+BN"@, "32×32"@), ("ResBlock(16→16) ×2"@, "32×32"@), ("ResBlock(16→32) ×2"@, "16×16"@), ("ResBlock(32→64) ×2"@, "8×8"@), ("AdaptiveAvgPool2d(1)"@, "1×1"@), ("Linear(64→10)"@, "10"@)]);
        ModelInfo { name: "ResNet-18 (Mini)", params: "~270 K", layers }
    } else {
        let mut layers: Vec<(&'static str, &'static str)> = Vec::new();
        layers.push(("Linear(784→256)", "256"));
        layers.push(("ReLU", "256"));
        layers.push(("Linear(256→128)", "128"));
        layers.push(("ReLU", "128"));
        layers.push(("Linear(128→10)", "10"));
        assert(layer_views(layers@) =~= seq![("Linear(784→256)"@, "256"@), ("ReLU"@, "256"@), ("Linear(256→128)"@, "128"@), ("ReLU"@, "128"@), ("Linear(128→10)"@, "10"@)]);
        ModelInfo { name: "MLP (Multi-Layer Perceptron)", params: "~120 K", layers }
    }
}

// ---------------------------------------------------------------------------
// Settings
// ---------------------------------------------------------------------------

/// `v` limited to `lo..=hi` (`u32::clamp`).
pub open spec fn clamped(v: int, lo: int, hi: int) -> int {
    if v < lo {
        lo
    } else if v > hi {
        hi
    } else {
        v
    }
}

/// `v` limited to `lo..=hi`.
pub fn clamp_u32(v: u32, lo: u32, hi: u32) -> (r: u32)
    requires
        lo <= hi,
    ensures
        r == clamped(v as int, lo as int, hi as int),
{
    if v < lo {
        lo
    } else if v > hi {
        hi
    } else {
        v
    }
}

/// The note under the data-distribution switch.
pub fn distribution_note(data_dist: &str) -> (s: &'static str)
    ensures
        s@ == if data_dist@ == "iid"@ {
            "Random equal splits across clients"@
        } else {
            "Each client gets ~2 classes"@
        },
{
    if str_is(data_dist, "iid") {
        "Random equal splits across clients"
    } else {
        "Each client gets ~2 classes"
    }
}

/// A typed number of clients, limited to 2..=20.
pub fn typed_clients(v: u32) -> (r: u32)
    ensures
        r == clamped(v as int, 2, 20),
{
    clamp_u32(v, 2, 20)
}

/// One client fewer, but not below 2.
pub open spec fn fewer_clients_of(v: int) -> int {
    if v > 2 { v - 1 } else { v }
}

/// One client more, but not above 20.
pub open spec fn more_clients_of(v: int) -> int {
    if v < 20 { v + 1 } else { v }
}

/// One round fewer, but not below 1.
pub open spec fn fewer_rounds_of(v: int) -> int {
    if v > 1 { v - 1 } else { v }
}

/// One round more, but not above 100.
pub open spec fn more_rounds_of(v: int) -> int {
    if v < 100 { v + 1 } else { v }
}

/// Half the batch size (rounded down), while it is above 8.
pub open spec fn smaller_batch_of(v: int) -> int {
    if v > 8 { v / 2 } else { v }
}

/// Twice the batch size, while it is below 512.
pub open spec fn larger_batch_of(v: int) -> int {
    if v < 512 { v * 2 } else { v }
}

/// One client fewer, but not below 2.
pub fn fewer_clients(v: u32) -> (r: u32)
    ensures
        r == fewer_clients_of(v as int),
{
    if v > 2 {
        v - 1
    } else {
        v
    }
}

/// One client more, but not above 20.
pub fn more_clients(v: u32) -> (r: u32)
    ensures
        r == more_clients_of(v as int),
{
    if v < 20 {
        v + 1
    } else {
        v
    }
}

/// A typed number of rounds, limited to 1..=100.
pub fn typed_rounds(v: u32) -> (r: u32)
    ensures
        r == clamped(v as int, 1, 100),
{
    clamp_u32(v, 1, 100)
}

/// One round fewer, but not below 1.
pub fn fewer_rounds(v: u32) -> (r: u32)
    ensures
        r == fewer_rounds_of(v as int),
{
    if v > 1 {
        v - 1
    } else {
        v
    }
}

/// One round more, but not above 100.
pub fn more_rounds(v: u32) -> (r: u32)
    ensures
        r == more_rounds_of(v as int),
{
    if v < 100 {
        v + 1
    } else {
        v
    }
}

/// A typed batch size, limited to 1..=512.
pub fn typed_batch_size(v: u32) -> (r: u32)
    ensures
        r == clamped(v as int, 1, 512),
{
    clamp_u32(v, 1, 512)
}

/// Half the batch size, while it is above 8.
pub fn smaller_batch(v: u32) -> (r: u32)
    ensures
        r == smaller_batch_of(v as int),
{
    if v > 8 {
        v / 2
    } else {
        v
    }
}

/// Twice the batch size, while it is below 512.
pub fn larger_batch(v: u32) -> (r: u32)
    ensures
        r == larger_batch_of(v as int),
{
    if v < 512 {
        v * 2
    } else {
        v
    }
}

/// A change the user makes to the training settings of the panel: a step
/// button, or a number typed into a field (as `u32::from_str` reads it).
pub enum SettingsChange {
    FewerClients,
    MoreClients,
    TypedClients(u32),
    FewerRounds,
    MoreRounds,
    TypedRounds(u32),
    SmallerBatch,
    LargerBatch,
    TypedBatch(u32),
}

/// The settings (clients, rounds, batch size) after one change.
pub open spec fn after_change(s: (int, int, int), c: SettingsChange) -> (int, int, int) {
    match c {
        SettingsChange::FewerClients => (fewer_clients_of(s.0), s.1, s.2),
        SettingsChange::MoreClients => (more_clients_of(s.0), s.1, s.2),
        SettingsChange::TypedClients(v) => (clamped(v as int, 2, 20), s.1, s.2),
        SettingsChange::FewerRounds => (s.0, fewer_rounds_of(s.1), s.2),
        SettingsChange::MoreRounds => (s.0, more_rounds_of(s.1), s.2),
        SettingsChange::TypedRounds(v) => (s.0, clamped(v as int, 1, 100), s.2),
        SettingsChange::SmallerBatch => (s.0, s.1, smaller_batch_of(s.2)),
        SettingsChange::LargerBatch => (s.0, s.1, larger_batch_of(s.2)),
        SettingsChange::TypedBatch(v) => (s.0, s.1, clamped(v as int, 1, 512)),
    }
}

/// The settings after a sequence of changes, in order.
pub open spec fn after_changes(s: (int, int, int), cs: Seq<SettingsChange>) -> (int, int, int)
    decreases cs.len(),
{
    if cs.len() == 0 {
        s
    } else {
        after_changes(after_change(s, cs[0]), cs.drop_first())
    }
}

/// The ranges the settings keep: 2 to 20 clients, 1 to 100 rounds, and a
/// batch size of at least 1 (typed sizes are at most 512; doubling one below
/// 512 can reach 1022).
pub open spec fn settings_in_range(s: (int, int, int)) -> bool {
    &&& 2 <= s.0 <= 20
    &&& 1 <= s.1 <= 100
    &&& 1 <= s.2 <= 1022
}

/// The settings the panel opens with: 3 clients, 5 rounds, batches of 32.
pub open spec fn initial_settings() -> (int, int, int) {
    (3, 5, 32)
}

/// Whatever the user types or steps, in any order and any number of times,
/// settings that start in their ranges (as the panel's defaults do) stay in
/// them.
pub proof fn law_settings_stay_in_range(start: (int, int, int), changes: Seq<SettingsChange>)
    requires
        settings_in_range(start),
    ensures
        settings_in_range(initial_settings()),
        settings_in_range(after_changes(start, changes)),
    decreases changes.len(),
{
    if changes.len() > 0 {
        law_settings_stay_in_range(after_change(start, changes[0]), changes.drop_first());
    }
}

// ---------------------------------------------------------------------------
// The generated training script
// ---------------------------------------------------------------------------

pub const MODEL_CNN: &'static str = r###"class Net(nn.Module):
    """LeNet-style CNN for 28x28 grayscale images."""
    def __init__(self, input_dim, num_classes):
        super().__init__()
        self.input_dim = input_dim
        side = int(input_dim ** 0.5)
        self.side = side
        self.conv1 = nn.Conv2d(1, 32, 3, 1)
        self.conv2 = nn.Conv2d(32, 64, 3, 1)
        self.pool = nn.MaxPool2d(2)
        conv_out = ((side - 2) // 2 - 2) // 2
        self.fc1 = nn.Linear(64 * conv_out * conv_out, 128)
        self.fc2 = nn.Linear(128, num_classes)

    def forward(self, x):
        if x.dim() == 2:
            x = x.view(-1, 1, self.side, self.side)
        elif x.dim() == 3:
            x = x.unsqueeze(1)
        x = self.pool(torch.relu(self.conv1(x)))
        x = self.pool(torch.relu(self.conv2(x)))
        x = x.view(x.size(0), -1)
        x = torch.relu(self.fc1(x))
        return self.fc2(x)"###;

pub const MODEL_RESNET: &'static str = r###"class ResBlock(nn.Module):
    def __init__(self, in_ch, out_ch, stride=1):
        super().__init__()
        self.conv1 = nn.Conv2d(in_ch, out_ch, 3, stride, 1, bias=False)
        self.bn1 = nn.BatchNorm2d(out_ch)
        self.conv2 = nn.Conv2d(out_ch, out_ch, 3, 1, 1, bias=False)
        self.bn2 = nn.BatchNorm2d(out_ch)
        self.shortcut = nn.Sequential()
        if stride != 1 or in_ch != out_ch:
            self.shortcut = nn.Sequential(
                nn.Conv2d(in_ch, out_ch, 1, stride, bias=False),
                nn.BatchNorm2d(out_ch),
            )

    def forward(self, x):
        out = torch.relu(self.bn1(self.conv1(x)))
        out = self.bn2(self.conv2(out))
        return torch.relu(out + self.shortcut(x))

class Net(nn.Module):
    """Mini ResNet-18 for grayscale images."""
    def __init__(self, input_dim, num_classes):
        super().__init__()
        self.side = int(input_dim ** 0.5)
        self.prep = nn.Sequential(
            nn.Conv2d(1, 16, 3, 1, 1, bias=False), nn.BatchNorm2d(16), nn.ReLU()
        )
        self.layer1 = nn.Sequential(ResBlock(16, 16), ResBlock(16, 16))
        self.layer2 = nn.Sequential(ResBlock(16, 32, 2), ResBlock(32, 32))
        self.layer3 = nn.Sequential(ResBlock(32, 64, 2), ResBlock(64, 64))
        self.pool = nn.AdaptiveAvgPool2d(1)
        self.fc = nn.Linear(64, num_classes)

    def forward(self, x):
        if x.dim() == 2:
            x = x.view(-1, 1, self.side, self.side)
        elif x.dim() == 3:
            x = x.unsqueeze(1)
        x = self.prep(x)
        x = self.layer1(x)
        x = self.layer2(x)
        x = self.layer3(x)
        x = self.pool(x).view(x.size(0), -1)
        return self.fc(x)"###;

pub const MODEL_CUSTOM: &'static str = r###"class Net(nn.Module):
    """Custom model — modify this architecture to suit your data."""
    def __init__(self, input_dim, num_classes):
        super().__init__()
        # TODO: Define your layers here
        self.flatten = nn.Flatten()
        self.fc1 = nn.Linear(input_dim, 128)
        self.fc2 = nn.Linear(128, num_classes)

    def forward(self, x):
        x = self.flatten(x)
        x = torch.relu(self.fc1(x))
        return self.fc2(x)"###;

pub const MODEL_MLP: &'static str = r###"class Net(nn.Module):
    """Multi-Layer Perceptron for tabular / flattened image data."""
    def __init__(self, input_dim, num_classes):
        super().__init__()
        self.flatten = nn.Flatten()
        self.fc1 = nn.Linear(input_dim, 256)
        self.fc2 = nn.Linear(256, 128)
        self.fc3 = nn.Linear(128, num_classes)

    def forward(self, x):
        x = self.flatten(x)
        x = torch.relu(self.fc1(x))
        x = torch.relu(self.fc2(x))
        return self.fc3(x)"###;

pub const NON_IID_0: &'static str = r###"
# --- Non-IID partitioning: sort by label, assign ~2 classes per client ---
def partition_data_non_iid(dataset, num_clients, num_classes_per_client=2):
    labels = dataset.tensors[1].numpy()
    sorted_indices = np.argsort(labels)
    num_classes = len(np.unique(labels))
    class_indices = []
    for c in range(num_classes):
        idx = sorted_indices[labels[sorted_indices] == c]
        class_indices.append(idx)
    client_indices = [[] for _ in range("###;

pub const NON_IID_1: &'static str = r###")]
    classes_per_client = max(1, min(num_classes_per_client, num_classes))
    for i in range("###;

pub const NON_IID_2: &'static str = r###"):
        chosen_classes = [(i * classes_per_client + j) % num_classes for j in range(classes_per_client)]
        for c in chosen_classes:
            shard_size = len(class_indices[c]) // "###;

pub const NON_IID_3: &'static str = r###"
            start = (i * shard_size) % len(class_indices[c])
            end = start + shard_size
            if end <= len(class_indices[c]):
                client_indices[i].extend(class_indices[c][start:end].tolist())
            else:
                client_indices[i].extend(class_indices[c][start:].tolist())
                client_indices[i].extend(class_indices[c][:end - len(class_indices[c])].tolist())
    return [Subset(dataset, idx) for idx in client_indices]

client_datasets = partition_data_non_iid(train_dataset, "###;

pub const NON_IID_4: &'static str = r###")
print(f"Data distribution: Non-IID (~2 classes per client)")
"###;

pub const IID_0: &'static str = r###"
# --- IID partitioning: random equal splits ---
def partition_data_iid(dataset, num_clients):
    indices = np.random.permutation(len(dataset)).tolist()
    shard_size = len(indices) // num_clients
    return [Subset(dataset, indices[i*shard_size:(i+1)*shard_size]) for i in range(num_clients)]

client_datasets = partition_data_iid(train_dataset, "###;

pub const IID_1: &'static str = r###")
print(f"Data distribution: IID (random equal splits)")
"###;

pub const FL_0: &'static str = r###"# ============================================================
# Federated Learning with PyTorch — FedAvg Simulation
# ============================================================
"###;

pub const FL_1: &'static str = r###" clients | "###;

pub const FL_2: &'static str = r###" rounds | "###;

pub const FL_3: &'static str = r###" | LR="###;

pub const FL_4: &'static str = r###" | Batch="###;

pub const FL_5: &'static str = r###"
# Dataset is pre-loaded as `df` / `splits`
# ============================================================

import torch
import torch.nn as nn
import torch.optim as optim
from torch.utils.data import DataLoader, TensorDataset, Subset
import numpy as np
import pandas as pd
import copy
import matplotlib
matplotlib.use("Agg")
import matplotlib.pyplot as plt

# --- Prepare data from the pre-loaded DataFrame ---
print("Preparing data from dataset...")
print(f"  DataFrame shape: {df.shape}")
print(f"  Columns: {df.columns.tolist()}")

# Auto-detect features and labels
# Heuristic: if a column named 'label' or 'target' exists, use it; else last column
label_candidates = [c for c in df.columns if c.lower() in ("label", "target", "labels", "targets", "class")]
label_col = label_candidates[0] if label_candidates else df.columns[-1]
feature_cols = [c for c in df.columns if c != label_col]

# Handle array-valued columns (e.g. image pixels stored as lists/arrays)
sample_val = df[feature_cols[0]].iloc[0]
if isinstance(sample_val, dict) and "bytes" in sample_val:
    # HuggingFace image format: {'bytes': b'...', 'path': '...'}
    from PIL import Image
    import io
    def _load_img(val):
        img = Image.open(io.BytesIO(val["bytes"])).convert("L")
        return np.array(img, dtype=np.float32).flatten()
    arrays = [_load_img(v) for v in df[feature_cols[0]].values]
    X = torch.tensor(np.stack(arrays), dtype=torch.float32)
    print(f"  Decoded image bytes column: '{feature_cols[0]}' -> shape {X.shape}")
elif hasattr(sample_val, "__len__") and not isinstance(sample_val, str):
    # Each cell is an array-like (image pixels, embeddings, etc.)
    arrays = [np.array(v, dtype=np.float32) for v in df[feature_cols[0]].values]
    X = torch.tensor(np.stack(arrays), dtype=torch.float32)
    print(f"  Detected array-valued column: '{feature_cols[0]}' -> shape {X.shape}")
else:
    X = torch.tensor(df[feature_cols].values, dtype=torch.float32)

y = torch.tensor(df[label_col].values, dtype=torch.long)

# Normalize features to [0, 1] range
if X.max() > 1.0:
    X = X / X.max()

num_classes = len(torch.unique(y))
print(f"  Features shape: {X.shape} | Classes: {num_classes} | Samples: {len(X)}")

# Train/test split (80/20)
perm = torch.randperm(len(X))
split = int(0.8 * len(X))
train_dataset = TensorDataset(X[perm[:split]], y[perm[:split]])
test_dataset = TensorDataset(X[perm[split:]], y[perm[split:]])

# --- Model Definition ---
"###;

pub const FL_6: &'static str = r###"
"###;

pub const FL_7: &'static str = r###"
for i, ds in enumerate(client_datasets):
    print(f"  Client {i}: {len(ds)} samples")

# --- Federated Learning Helpers ---
class FederatedClient:
    def __init__(self, client_id, dataset, model_template, lr, batch_size):
        self.id = client_id
        self.loader = DataLoader(dataset, batch_size=batch_size, shuffle=True, drop_last=False)
        self.model = copy.deepcopy(model_template)
        self.optimizer = optim.SGD(self.model.parameters(), lr=lr)
        self.criterion = nn.CrossEntropyLoss()

    def train_one_epoch(self):
        self.model.train()
        total_loss = 0.0
        n = 0
        for xb, yb in self.loader:
            self.optimizer.zero_grad()
            out = self.model(xb)
            loss = self.criterion(out, yb)
            loss.backward()
            self.optimizer.step()
            total_loss += loss.item() * len(xb)
            n += len(xb)
        return total_loss / max(n, 1)

def federated_average(global_model, client_models, client_sizes):
    """FedAvg: weighted average of client model parameters."""
    global_dict = global_model.state_dict()
    total = sum(client_sizes)
    for key in global_dict:
        global_dict[key] = sum(
            client_models[i].state_dict()[key].float() * (client_sizes[i] / total)
            for i in range(len(client_models))
        )
    global_model.load_state_dict(global_dict)

def evaluate(model, dataset):
    model.eval()
    loader = DataLoader(dataset, batch_size=256)
    correct, total = 0, 0
    with torch.no_grad():
        for xb, yb in loader:
            preds = model(xb).argmax(dim=1)
            correct += (preds == yb).sum().item()
            total += len(yb)
    return correct / max(total, 1) * 100.0

# --- Compute input dimensions ---
input_dim = X.shape[1] if X.dim() == 2 else int(np.prod(X.shape[1:]))

# --- Model Summary ---
global_model = Net(input_dim, num_classes)
total_params = sum(p.numel() for p in global_model.parameters())
trainable_params = sum(p.numel() for p in global_model.parameters() if p.requires_grad)
print()
print("=" * 50)
print(f"  Model: {global_model.__class__.__name__}")
print(f"  Total parameters: {total_params:,}")
print(f"  Trainable parameters: {trainable_params:,}")
print("=" * 50)
for name, module in global_model.named_children():
    params = sum(p.numel() for p in module.parameters())
    print(f"  {name:20s} | {params:>8,} params")
print("=" * 50)
print()

# --- Federated Training Loop ---"###;

pub const FL_8: &'static str = r###"
NUM_ROUNDS = "###;

pub const FL_9: &'static str = r###"
LR = "###;

pub const FL_10: &'static str = r###"
BATCH_SIZE = "###;

pub const FL_11: &'static str = r###"
clients = [
    FederatedClient(i, client_datasets[i], global_model, LR, BATCH_SIZE)
    for i in range(NUM_CLIENTS)
]

round_losses = []
round_accuracies = []
client_accuracies_per_round = []

print(f"Starting Federated Training: {NUM_ROUNDS} rounds, {NUM_CLIENTS} clients")
print("-" * 50)

for rnd in range(1, NUM_ROUNDS + 1):
    # Distribute global model to all clients
    for client in clients:
        client.model.load_state_dict(global_model.state_dict())

    # Local training
    losses = []
    for client in clients:
        loss = client.train_one_epoch()
        losses.append(loss)

    # Aggregate
    client_models = [c.model for c in clients]
    client_sizes = [len(c.loader.dataset) for c in clients]
    federated_average(global_model, client_models, client_sizes)

    avg_loss = np.mean(losses)
    accuracy = evaluate(global_model, test_dataset)
    round_losses.append(avg_loss)
    round_accuracies.append(accuracy)

    # Per-client accuracy
    per_client_acc = []
    for client in clients:
        client.model.load_state_dict(global_model.state_dict())
        acc = evaluate(client.model, test_dataset)
        per_client_acc.append(acc)
    client_accuracies_per_round.append(per_client_acc)

    print(f"Round {rnd:3d}/{NUM_ROUNDS} | Loss: {avg_loss:.4f} | Accuracy: {accuracy:.1f}%")

print("-" * 50)
print(f"Final Global Accuracy: {round_accuracies[-1]:.1f}%")

# --- Visualization ---
fig, axes = plt.subplots(1, 3, figsize=(16, 4.5))

# 1) Training loss curve
axes[0].plot(range(1, NUM_ROUNDS + 1), round_losses, color="#10b981", linewidth=2)
axes[0].set_xlabel("Round")
axes[0].set_ylabel("Avg Loss")
axes[0].set_title("Training Loss per Round")
axes[0].grid(True, alpha=0.3)

# 2) Global accuracy curve
axes[1].plot(range(1, NUM_ROUNDS + 1), round_accuracies, color="#3b82f6", linewidth=2)
axes[1].set_xlabel("Round")
axes[1].set_ylabel("Accuracy (%)")
axes[1].set_title("Global Test Accuracy")
axes[1].grid(True, alpha=0.3)

# 3) Final per-client accuracy bar chart
final_client_accs = client_accuracies_per_round[-1]
colors = plt.cm.Set2(np.linspace(0, 1, NUM_CLIENTS))
bars = axes[2].bar(
    [f"C{i}" for i in range(NUM_CLIENTS)],
    final_client_accs,
    color=colors,
    edgecolor="#333",
)
axes[2].set_ylabel("Accuracy (%)")
axes[2].set_title("Per-Client Accuracy (Final Round)")
axes[2].grid(True, axis="y", alpha=0.3)
for bar, acc in zip(bars, final_client_accs):
    axes[2].text(bar.get_x() + bar.get_width()/2, bar.get_height() + 0.5,
                 f"{acc:.1f}%", ha="center", va="bottom", fontsize=8, color="#ccc")

plt.tight_layout()
plt.show()

summary = pd.DataFrame({
    "Round": list(range(1, NUM_ROUNDS + 1)),
    "Avg Loss": [f"{l:.4f}" for l in round_losses],
    "Global Accuracy (%)": [f"{a:.1f}" for a in round_accuracies],
})
print()
print("Training Summary:")
print(summary.to_string(index=False))

# ============================================================
# Explainable AI (XAI) Analysis
# ============================================================
print()
print("=" * 50)
print("  Explainable AI Analysis")
print("=" * 50)

# Helper: save plot to XAI tab (uses _xai_save_plot from runner)
def xai_plot():
    _xai_save_plot()

global _xai_html

# --- 1) Feature Importance (Gradient-based) ---
print("Computing gradient-based feature importance...")
try:
    global_model.eval()
    test_loader = DataLoader(test_dataset, batch_size=256)
    importance = torch.zeros(input_dim)
    total_samples = 0
    for xb, yb in test_loader:
        xb.requires_grad_(True)
        out = global_model(xb)
        loss_val = nn.CrossEntropyLoss()(out, yb)
        loss_val.backward()
        importance += xb.grad.abs().mean(dim=0).flatten().detach()
        total_samples += 1
        xb.requires_grad_(False)
    importance /= max(total_samples, 1)
    importance_np = importance.numpy()

    fig, ax = plt.subplots(figsize=(8, 5))
    fig.patch.set_facecolor("#111111")
    ax.set_facecolor("#111111")
    is_image = input_dim in [784, 1024, 3072]  # 28x28, 32x32, 32x32x3
    if is_image:
        side = int(input_dim ** 0.5)
        if side * side != input_dim:
            side = 28  # fallback for 784
        heatmap = importance_np[:side*side].reshape(side, side)
        im = ax.imshow(heatmap, cmap="hot", interpolation="bilinear")
        plt.colorbar(im, ax=ax, label="Avg |Gradient|")
        ax.set_title("Feature Importance (Saliency Map)", color="#fff", fontsize=14)
    else:
        top_k = min(20, len(importance_np))
        top_idx = np.argsort(importance_np)[-top_k:]
        ax.barh(range(top_k), importance_np[top_idx], color="#10b981", edgecolor="#333")
        feat_labels = [feature_cols[i] if i < len(feature_cols) else f"F{i}" for i in top_idx]
        ax.set_yticks(range(top_k))
        ax.set_yticklabels(feat_labels, color="#ccc", fontsize=9)
        ax.set_xlabel("Avg |Gradient|", color="#ccc")
        ax.set_title("Top Feature Importance (Gradient)", color="#fff", fontsize=14)
    ax.tick_params(colors="#888")
    plt.tight_layout()
    xai_plot()
    print("  ✓ Feature importance computed")
except Exception as e:
    print(f"  ⚠ Feature importance failed: {e}")

# --- 2) Confusion Matrix ---
print("Computing confusion matrix...")
try:
    from sklearn.metrics import confusion_matrix as sk_confusion_matrix
    global_model.eval()
    all_preds, all_labels = [], []
    with torch.no_grad():
        for xb, yb in DataLoader(test_dataset, batch_size=256):
            preds = global_model(xb).argmax(dim=1)
            all_preds.extend(preds.numpy())
            all_labels.extend(yb.numpy())
    cm = sk_confusion_matrix(all_labels, all_preds)

    fig, ax = plt.subplots(figsize=(7, 6))
    fig.patch.set_facecolor("#111111")
    ax.set_facecolor("#111111")
    try:
        import seaborn as sns
        sns.heatmap(cm, annot=True, fmt="d", cmap="Blues", ax=ax,
                    xticklabels=range(num_classes), yticklabels=range(num_classes),
                    cbar_kws={"label": "Count"})
    except ImportError:
        im = ax.imshow(cm, cmap="Blues", interpolation="nearest")
        plt.colorbar(im, ax=ax, label="Count")
        for i in range(cm.shape[0]):
            for j in range(cm.shape[1]):
                ax.text(j, i, str(cm[i, j]), ha="center", va="center",
                        color="white" if cm[i, j] > cm.max()/2 else "black", fontsize=8)
        ax.set_xticks(range(num_classes))
        ax.set_yticks(range(num_classes))
    ax.set_xlabel("Predicted", color="#ccc")
    ax.set_ylabel("Actual", color="#ccc")
    ax.set_title("Confusion Matrix", color="#fff", fontsize=14)
    ax.tick_params(colors="#888")
    plt.tight_layout()
    xai_plot()
    print("  ✓ Confusion matrix computed")
except Exception as e:
    print(f"  ⚠ Confusion matrix failed: {e}")

# --- 3) Per-Class Accuracy Breakdown ---
print("Computing per-class metrics...")
try:
    from sklearn.metrics import classification_report, precision_recall_fscore_support
    report = classification_report(all_labels, all_preds, output_dict=True, zero_division=0)
    prec, rec, f1, sup = precision_recall_fscore_support(all_labels, all_preds, zero_division=0)
    class_names = [str(c) for c in range(num_classes)]

    fig, ax = plt.subplots(figsize=(8, 5))
    fig.patch.set_facecolor("#111111")
    ax.set_facecolor("#111111")
    x_pos = np.arange(num_classes)
    w = 0.25
    ax.bar(x_pos - w, prec * 100, w, label="Precision", color="#3b82f6", edgecolor="#333")
    ax.bar(x_pos, rec * 100, w, label="Recall", color="#10b981", edgecolor="#333")
    ax.bar(x_pos + w, f1 * 100, w, label="F1-Score", color="#f59e0b", edgecolor="#333")
    ax.set_xticks(x_pos)
    ax.set_xticklabels(class_names, color="#ccc")
    ax.set_ylabel("Score (%)", color="#ccc")
    ax.set_title("Per-Class Precision / Recall / F1", color="#fff", fontsize=14)
    ax.legend(facecolor="#222", edgecolor="#444", labelcolor="#ccc")
    ax.tick_params(colors="#888")
    ax.grid(True, axis="y", alpha=0.2)
    plt.tight_layout()
    xai_plot()

    # Per-class metrics table -> _xai_html
    metrics_df = pd.DataFrame({
        "Class": class_names,
        "Precision": [f"{v:.3f}" for v in prec],
        "Recall": [f"{v:.3f}" for v in rec],
        "F1-Score": [f"{v:.3f}" for v in f1],
        "Support": sup.astype(int),
    })
    overall_acc = report.get("accuracy", 0)
    macro = report.get("macro avg", {})
    _xai_html = (
        f"<div style='margin-bottom:8px;color:#888;font-size:12px'>Overall Accuracy: {overall_acc:.1%} | "
        f"Macro F1: {macro.get('f1-score', 0):.3f}</div>"
        + metrics_df.to_html(classes="df-table", index=False)
    )
    print("  ✓ Per-class metrics computed")
except Exception as e:
    print(f"  ⚠ Per-class metrics failed: {e}")

# --- 4) SHAP Values ---
print("Computing SHAP values...")
try:
    import shap
    global_model.eval()
    background_size = min(100, len(test_dataset))
    bg_indices = np.random.choice(len(test_dataset), background_size, replace=False)
    bg_data = torch.stack([test_dataset[i][0] for i in bg_indices])
    sample_size = min(50, len(test_dataset))
    sample_indices = np.random.choice(len(test_dataset), sample_size, replace=False)
    sample_data = torch.stack([test_dataset[i][0] for i in sample_indices])

    # Wrap model to ensure flat 2D input (SHAP doesn't handle in-model reshapes well)
    class _FlatModel(nn.Module):
        def __init__(self, model, in_dim):
            super().__init__()
            self.model = model
            self.in_dim = in_dim
        def forward(self, x):
            if x.dim() == 2:
                return self.model(x)
            return self.model(x.view(x.size(0), -1))

    _flat = _FlatModel(global_model, input_dim)
    _flat.eval()
    bg_flat = bg_data.view(bg_data.size(0), -1).detach()
    sample_flat = sample_data.view(sample_data.size(0), -1).detach()

    explainer = shap.GradientExplainer(_flat, bg_flat)
    shap_values = explainer.shap_values(sample_flat)

    fig, ax = plt.subplots(figsize=(8, 5))
    fig.patch.set_facecolor("#111111")
    ax.set_facecolor("#111111")
    if isinstance(shap_values, list):
        sv = np.abs(np.array(shap_values)).mean(axis=0)
    else:
        sv = np.abs(shap_values)
    mean_shap = sv.mean(axis=0).flatten()
    top_k = min(20, len(mean_shap))
    top_idx = np.argsort(mean_shap)[-top_k:]
    feat_labels = [feature_cols[i] if i < len(feature_cols) else f"F{i}" for i in top_idx]
    ax.barh(range(top_k), mean_shap[top_idx], color="#8b5cf6", edgecolor="#333")
    ax.set_yticks(range(top_k))
    ax.set_yticklabels(feat_labels, color="#ccc", fontsize=9)
    ax.set_xlabel("Mean |SHAP|", color="#ccc")
    ax.set_title("SHAP Feature Importance", color="#fff", fontsize=14)
    ax.tick_params(colors="#888")
    plt.tight_layout()
    xai_plot()
    print("  ✓ SHAP values computed")
except ImportError:
    print("  ⚠ SHAP not installed — skipping. Install with: pip install shap")
except Exception as e:
    print(f"  ⚠ SHAP analysis failed: {e}")

# --- 5) Prediction Confidence Distribution ---
print("Computing prediction confidence distribution...")
try:
    global_model.eval()
    all_confs = []
    all_correct = []
    with torch.no_grad():
        for xb, yb in DataLoader(test_dataset, batch_size=256):
            probs = torch.softmax(global_model(xb), dim=1)
            max_conf, preds = probs.max(dim=1)
            all_confs.extend(max_conf.numpy())
            all_correct.extend((preds == yb).numpy())
    all_confs = np.array(all_confs)
    all_correct = np.array(all_correct)

    fig, ax = plt.subplots(figsize=(8, 5))
    fig.patch.set_facecolor("#111111")
    ax.set_facecolor("#111111")
    ax.hist(all_confs[all_correct], bins=30, alpha=0.7, label="Correct", color="#10b981", edgecolor="#333")
    ax.hist(all_confs[~all_correct], bins=30, alpha=0.7, label="Incorrect", color="#ef4444", edgecolor="#333")
    ax.set_xlabel("Max Prediction Probability", color="#ccc")
    ax.set_ylabel("Count", color="#ccc")
    ax.set_title("Prediction Confidence Distribution", color="#fff", fontsize=14)
    ax.legend(facecolor="#222", edgecolor="#444", labelcolor="#ccc")
    ax.tick_params(colors="#888")
    ax.grid(True, alpha=0.2)
    plt.tight_layout()
    xai_plot()
    print("  ✓ Prediction confidence computed")
except Exception as e:
    print(f"  ⚠ Prediction confidence failed: {e}")

# --- 6) t-SNE Visualization ---
print("Computing t-SNE embedding...")
try:
    from sklearn.manifold import TSNE
    global_model.eval()
    tsne_size = min(1000, len(test_dataset))
    tsne_indices = np.random.choice(len(test_dataset), tsne_size, replace=False)
    tsne_data = torch.stack([test_dataset[i][0] for i in tsne_indices])
    tsne_labels = np.array([test_dataset[i][1].item() for i in tsne_indices])

    # Extract penultimate layer activations via hook
    _activations = []
    def _hook_fn(module, inp, out):
        _activations.append(out.detach())

    # Find the penultimate layer
    children = list(global_model.named_children())
    if len(children) >= 2:
        hook_layer = getattr(global_model, children[-2][0])
    else:
        hook_layer = getattr(global_model, children[-1][0])
    handle = hook_layer.register_forward_hook(_hook_fn)

    with torch.no_grad():
        _ = global_model(tsne_data)
    handle.remove()

    if _activations:
        acts = _activations[0].numpy().reshape(tsne_size, -1)
    else:
        acts = tsne_data.numpy().reshape(tsne_size, -1)

    perplexity = min(30, tsne_size - 1)
    tsne = TSNE(n_components=2, random_state=42, perplexity=perplexity)
    coords = tsne.fit_transform(acts)

    fig, ax = plt.subplots(figsize=(8, 6))
    fig.patch.set_facecolor("#111111")
    ax.set_facecolor("#111111")
    scatter = ax.scatter(coords[:, 0], coords[:, 1], c=tsne_labels, cmap="tab10",
                         s=8, alpha=0.7, edgecolors="none")
    cbar = plt.colorbar(scatter, ax=ax, label="Class")
    cbar.ax.yaxis.label.set_color("#ccc")
    cbar.ax.tick_params(colors="#888")
    ax.set_title("t-SNE of Learned Representations", color="#fff", fontsize=14)
    ax.set_xlabel("t-SNE 1", color="#ccc")
    ax.set_ylabel("t-SNE 2", color="#ccc")
    ax.tick_params(colors="#888")
    plt.tight_layout()
    xai_plot()
    print("  ✓ t-SNE computed")
except ImportError:
    print("  ⚠ sklearn not installed — skipping t-SNE. Install with: pip install scikit-learn")
except Exception as e:
    print(f"  ⚠ t-SNE visualization failed: {e}")

print()
print("=" * 50)
print("  XAI Analysis Complete")
print("=" * 50)
"###;

/// The class definition of the preset's network (the MLP for unknown names).
pub open spec fn model_def_of(preset: Seq<char>) -> Seq<char> {
    if preset == "cnn"@ {
        MODEL_CNN@
    } else if preset == "resnet"@ {
        MODEL_RESNET@
    } else if preset == "custom"@ {
        MODEL_CUSTOM@
    } else {
        MODEL_MLP@
    }
}

/// The data partitioning code for `n` clients: about two classes per client
/// (non-IID) or random equal shares (IID).
pub open spec fn partition_code_of(non_iid: bool, n: nat) -> Seq<char> {
    if non_iid {
        NON_IID_0@ + decimal(n) + NON_IID_1@ + decimal(n) + NON_IID_2@ + decimal(n) + NON_IID_3@ + decimal(n) + NON_IID_4@
    } else {
        IID_0@ + decimal(n) + IID_1@
    }
}

/// The FedAvg training script the helper generates, for the given number
/// of clients, data distribution, rounds, learning rate (as displayed),
/// batch size and model preset.
pub open spec fn fl_code_of(
    num_clients: nat,
    data_dist: Seq<char>,
    num_rounds: nat,
    lr: Seq<char>,
    bs: nat,
    preset: Seq<char>,
) -> Seq<char> {
    FL_0@ + config_line(num_clients, data_dist, num_rounds, lr, bs) + script_middle(num_clients, data_dist, preset)
        + settings_lines(num_clients, num_rounds, lr, bs) + FL_11@
}

/// The header line of the script that records the settings.
pub open spec fn config_line(num_clients: nat, data_dist: Seq<char>, num_rounds: nat, lr: Seq<char>, bs: nat) -> Seq<char> {
    "# Config: "@ + decimal(num_clients) + FL_1@ + decimal(num_rounds) + FL_2@ + distribution_label(data_dist) + FL_3@
        + lr + FL_4@ + decimal(bs)
}

/// The script between its header and its training settings: the imports and
/// data preparation, the model, the partitioning and the client helpers.
pub open spec fn script_middle(num_clients: nat, data_dist: Seq<char>, preset: Seq<char>) -> Seq<char> {
    FL_5@ + model_def_of(preset) + FL_6@ + partition_code_of(data_dist == "non_iid"@, num_clients) + FL_7@
}

/// The lines of the training loop that set its parameters.
pub open spec fn settings_lines(num_clients: nat, num_rounds: nat, lr: Seq<char>, bs: nat) -> Seq<char> {
    "\nNUM_CLIENTS = "@ + decimal(num_clients) + FL_8@ + decimal(num_rounds) + FL_9@ + lr + FL_10@ + decimal(bs)
        + "\n"@
}

fn push_text(out: &mut Vec<char>, s: &str)
    ensures
        final(out)@ == old(out)@ + s@,
{
    extend_chars(out, chars_of(s).as_slice());
}

/// The class definition of a preset's network.
pub fn model_definition(preset: &str) -> (d: &'static str)
    ensures
        d@ == model_def_of(preset@),
{
    if str_is(preset, "cnn") {
        MODEL_CNN
    } else if str_is(preset, "resnet") {
        MODEL_RESNET
    } else if str_is(preset, "custom") {
        MODEL_CUSTOM
    } else {
        MODEL_MLP
    }
}

/// The data partitioning code for `n` clients.
pub fn partition_code(non_iid: bool, n: u32) -> (c: Vec<char>)
    ensures
        c@ == partition_code_of(non_iid, n as nat),
{
    let mut out: Vec<char> = Vec::new();
    if non_iid {

        push_text(&mut out, NON_IID_0);
        push_decimal(&mut out, n as u128);
        push_text(&mut out, NON_IID_1);
        push_decimal(&mut out, n as u128);
        push_text(&mut out, NON_IID_2);
        push_decimal(&mut out, n as u128);
        push_text(&mut out, NON_IID_3);
        push_decimal(&mut out, n as u128);
        push_text(&mut out, NON_IID_4);
        assert(out@ == partition_code_of(non_iid, n as nat));
    } else {
        push_text(&mut out, IID_0);
        push_decimal(&mut out, n as u128);
        push_text(&mut out, IID_1);
        assert(out@ == partition_code_of(non_iid, n as nat));
    }
    out
}

/// Generates the FedAvg training script; the learning rate is passed as it
/// is displayed.
pub fn fl_code_template(
    num_clients: u32,
    data_dist: &str,
    num_rounds: u32,
    learning_rate: &str,
    batch_size: u32,
    model_preset: &str,
) -> (code: String)
    ensures
        code@ == fl_code_of(num_clients as nat, data_dist@, num_rounds as nat, learning_rate@, batch_size as nat, model_preset@),
{
    let non_iid = str_is(data_dist, "non_iid");
    let mut out: Vec<char> = Vec::new();
    push_text(&mut out, FL_0);
    push_text(&mut out, "# Config: ");
    push_decimal(&mut out, num_clients as u128);
    push_text(&mut out, FL_1);
    push_decimal(&mut out, num_rounds as u128);
    push_text(&mut out, FL_2);
    push_text(&mut out, if non_iid { "Non-IID" } else { "IID" });
    push_text(&mut out, FL_3);
    push_text(&mut out, learning_rate);
    push_text(&mut out, FL_4);
    push_decimal(&mut out, batch_size as u128);
    push_text(&mut out, FL_5);
    push_text(&mut out, model_definition(model_preset));
    push_text(&mut out, FL_6);
    extend_chars(&mut out, partition_code(non_iid, num_clients).as_slice());
    push_text(&mut out, FL_7);
    push_text(&mut out, "\nNUM_CLIENTS = ");
    push_decimal(&mut out, num_clients as u128);
    push_text(&mut out, FL_8);
    push_decimal(&mut out, num_rounds as u128);
    push_text(&mut out, FL_9);
    push_text(&mut out, learning_rate);
    push_text(&mut out, FL_10);
    push_decimal(&mut out, batch_size as u128);
    push_text(&mut out, "\n");
    push_text(&mut out, FL_11);
    string_of(out.as_slice())
}

/// How the script's header names the data distribution.
pub open spec fn distribution_label(data_dist: Seq<char>) -> Seq<char> {
    if data_dist == "non_iid"@ {
        "Non-IID"@
    } else {
        "IID"@
    }
}

/// `s` is `pre`, then `mid`, then `post`.
pub open spec fn split_around(s: Seq<char>, pre: Seq<char>, mid: Seq<char>, post: Seq<char>) -> bool {
    s == pre + mid + post
}

/// The generated script trains with exactly the panel's settings: its
/// header reads `# Config: {clients} clients | {rounds} rounds | {IID or
/// Non-IID} | LR={lr} | Batch={batch}`, and its training loop assigns
/// `NUM_CLIENTS`, `NUM_ROUNDS`, `LR` and `BATCH_SIZE`, each on a line of its
/// own, the number of clients, the number of rounds, the learning rate and
/// the batch size.
pub proof fn law_script_carries_settings(
    num_clients: nat,
    data_dist: Seq<char>,
    num_rounds: nat,
    lr: Seq<char>,
    bs: nat,
    preset: Seq<char>,
)
    ensures
        exists|pre: Seq<char>, post: Seq<char>|
            #[trigger] split_around(
                fl_code_of(num_clients, data_dist, num_rounds, lr, bs, preset),
                pre,
                "# Config: "@ + decimal(num_clients) + " clients | "@ + decimal(num_rounds) + " rounds | "@
                    + distribution_label(data_dist) + " | LR="@ + lr
                    + " | Batch="@ + decimal(bs),
                post,
            ),
        exists|pre: Seq<char>, post: Seq<char>|
            #[trigger] split_around(
                fl_code_of(num_clients, data_dist, num_rounds, lr, bs, preset),
                pre,
                "\nNUM_CLIENTS = "@ + decimal(num_clients) + "\nNUM_ROUNDS = "@ + decimal(num_rounds)
                    + "\nLR = "@ + lr + "\nBATCH_SIZE = "@ + decimal(bs) + "\n"@,
                post,
            ),
{
    reveal_strlit(" clients | ");
    reveal_strlit(" rounds | ");
    reveal_strlit(" | LR=");
    reveal_strlit(" | Batch=");
    reveal_strlit("\nNUM_ROUNDS = ");
    reveal_strlit("\nLR = ");
    reveal_strlit("\nBATCH_SIZE = ");
    assert(FL_1@ == " clients | "@);
    assert(FL_2@ == " rounds | "@);
    assert(FL_3@ == " | LR="@);
    assert(FL_4@ == " | Batch="@);
    assert(FL_8@ == "\nNUM_ROUNDS = "@);
    assert(FL_9@ == "\nLR = "@);
    assert(FL_10@ == "\nBATCH_SIZE = "@);
    let code = fl_code_of(num_clients, data_dist, num_rounds, lr, bs, preset);
    let cl = config_line(num_clients, data_dist, num_rounds, lr, bs);
    let mid = script_middle(num_clients, data_dist, preset);
    let sl = settings_lines(num_clients, num_rounds, lr, bs);
    vstd::seq_lib::lemma_concat_associative(FL_0@ + cl, mid, sl);
    vstd::seq_lib::lemma_concat_associative(FL_0@ + cl, mid + sl, FL_11@);
    vstd::seq_lib::lemma_concat_associative(FL_0@, cl, (mid + sl) + FL_11@);
    assert(split_around(code, FL_0@, cl, (mid + sl) + FL_11@));
    assert(split_around(code, FL_0@ + cl + mid, sl, FL_11@));
}

/// Each step button moves its setting by exactly one step inside its range
/// and leaves it at the limit; a step and the opposite step undo each other.
pub proof fn law_steppers_step_and_undo(v: int)
    ensures
        2 < v ==> fewer_clients_of(v) == v - 1,
        v < 20 ==> more_clients_of(v) == v + 1,
        v <= 2 ==> fewer_clients_of(v) == v,
        v >= 20 ==> more_clients_of(v) == v,
        1 < v ==> fewer_rounds_of(v) == v - 1,
        v < 100 ==> more_rounds_of(v) == v + 1,
        v <= 1 ==> fewer_rounds_of(v) == v,
        v >= 100 ==> more_rounds_of(v) == v,
        8 < v ==> smaller_batch_of(v) * 2 <= v < smaller_batch_of(v) * 2 + 2,
        v <= 8 ==> smaller_batch_of(v) == v,
        v < 512 ==> larger_batch_of(v) == 2 * v,
        v >= 512 ==> larger_batch_of(v) == v,
        2 < v <= 20 ==> more_clients_of(fewer_clients_of(v)) == v,
        2 <= v < 20 ==> fewer_clients_of(more_clients_of(v)) == v,
        1 < v <= 100 ==> more_rounds_of(fewer_rounds_of(v)) == v,
        1 <= v < 100 ==> fewer_rounds_of(more_rounds_of(v)) == v,
        4 < v < 512 ==> smaller_batch_of(larger_batch_of(v)) == v,
{
}

} // verus!
